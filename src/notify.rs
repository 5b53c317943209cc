//! The texts of a level-up notification, and the address of an upstream page.

use vstd::prelude::*;
use crate::reconcile::PAGE_SIZE;
use crate::text::{decimal, push_decimal, push_signed_decimal, signed_decimal};
use crate::user::User;

verus! {

/// The text that links a participant's card and mentions them.
pub open spec fn card_request_spec(root_url: Seq<char>, id: u64) -> Seq<char> {
    root_url + "/card?id="@ + decimal(id as nat) + " <@"@ + decimal(id as nat) + ">"@
}

/// The text that links a participant's card and mentions them.
pub fn card_request(root_url: &str, id: u64) -> (r: String)
    ensures
        r@ == card_request_spec(root_url@, id),
{
    let mut out = String::from_str(root_url);
    out.append("/card?id=");
    push_decimal(&mut out, id);
    out.append(" <@");
    push_decimal(&mut out, id);
    out.append(">");
    assert(out@ =~= card_request_spec(root_url@, id));
    out
}

/// The description of the announcement of a participant who reached `level`.
pub open spec fn level_up_description_spec(user: User, level: u64, request: Seq<char>) -> Seq<char> {
    "User "@ + user.slug() + " (<@"@ + decimal(user.id as nat) + ">) has reached level "@ + decimal(
        level as nat,
    ) + "```"@ + request + "```"@
}

/// The description of the announcement of a participant who reached `level`.
pub fn level_up_description(user: &User, level: u64, request: &str) -> (r: String)
    ensures
        r@ == level_up_description_spec(*user, level, request@),
{
    let mut out = String::from_str("User ");
    let name = user.human_identifier();
    out.append(name.as_str());
    out.append(" (<@");
    push_decimal(&mut out, user.id);
    out.append(">) has reached level ");
    push_decimal(&mut out, level);
    out.append("```");
    out.append(request);
    out.append("```");
    assert(out@ =~= level_up_description_spec(*user, level, request@));
    out
}

/// The address of the site's logo, shown beside an announcement.
pub fn logo_url(root_url: &str) -> (r: String)
    ensures
        r@ == root_url@ + "/search6.png"@,
{
    let mut out = String::from_str(root_url);
    out.append("/search6.png");
    out
}

/// The address of one page of a server's upstream leaderboard.
pub open spec fn leaderboard_url_spec(guild_id: u64, page: i64) -> Seq<char> {
    "https://mee6.xyz/api/plugins/levels/leaderboard/"@ + decimal(guild_id as nat) + "?limit="@
        + decimal(PAGE_SIZE as nat) + "&page="@ + signed_decimal(page as int)
}

/// The address of one page of a server's upstream leaderboard.
pub fn leaderboard_url(guild_id: u64, page: i64) -> (r: String)
    ensures
        r@ == leaderboard_url_spec(guild_id, page),
{
    let mut out = String::from_str("https://mee6.xyz/api/plugins/levels/leaderboard/");
    push_decimal(&mut out, guild_id);
    out.append("?limit=");
    push_decimal(&mut out, PAGE_SIZE);
    out.append("&page=");
    push_signed_decimal(&mut out, page);
    assert(out@ =~= leaderboard_url_spec(guild_id, page));
    out
}

} // verus!
