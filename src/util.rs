//! Avatar addresses, elapsed-time text and the query shapes of the lookup
//! requests.

use vstd::prelude::*;
use base64::Engine;
use crate::text::{decimal, parse_decimal, parse_unsigned, push_decimal, push_signed_decimal, signed_decimal};

verus! {

/// The query of a lookup request: the id or name asked for, and whether the
/// caller expects the participant to be ranked.
#[derive(Clone, Debug, PartialEq, Eq)]
pub struct SubmitQuery {
    pub id: Option<String>,
    pub userexists: bool,
}

/// The query with which the upstream completes a login.
#[derive(Clone, Debug, PartialEq, Eq)]
pub struct SetIdQuery {
    pub code: String,
    pub state: String,
}

/// The default of `userexists` in a lookup query.
pub fn rfalse() -> (r: bool)
    ensures
        !r,
{
    false
}

/// The number of the stock avatar shown for a discriminator: its value
/// modulo five, or five where it is not a `u16`.
pub open spec fn stock_avatar(discrim: Seq<char>) -> nat {
    match parse_unsigned(discrim, u16::MAX as nat) {
        Some(v) => v % 5,
        None => 5,
    }
}

/// The avatar hash names an animated image.
pub open spec fn is_animated(hash: Seq<char>) -> bool {
    hash.len() >= 2 && hash[0] == 'a' && hash[1] == '_'
}

pub open spec fn avatar_url_spec(id: u64, discrim: Seq<char>, hash: Option<String>, allowgif: bool) -> Seq<
    char,
> {
    match hash {
        Some(h) if h@.len() > 0 => "https://cdn.discordapp.com/avatars/"@ + decimal(id as nat) + "/"@
            + h@ + if allowgif && is_animated(h@) {
            ".gif"@
        } else {
            ".png"@
        },
        _ => "https://cdn.discordapp.com/embed/avatars/"@ + decimal(stock_avatar(discrim))
            + ".png?width=256&height=256"@,
    }
}

/// The address of a participant's avatar: the stock one where there is no
/// hash, the animated one only where allowed and available.
pub fn get_avatar_url(id: u64, discrim: &str, hash: &Option<String>, allowgif: bool) -> (r: String)
    ensures
        r@ == avatar_url_spec(id, discrim@, *hash, allowgif),
{
    match hash {
        Some(h) => {
            if h.as_str().unicode_len() > 0 {
                let mut out = String::from_str("https://cdn.discordapp.com/avatars/");
                push_decimal(&mut out, id);
                out.append("/");
                out.append(h.as_str());
                let animated = h.as_str().unicode_len() >= 2 && h.as_str().get_char(0) == 'a'
                    && h.as_str().get_char(1) == '_';
                if allowgif && animated {
                    out.append(".gif");
                } else {
                    out.append(".png");
                }
                return out;
            }
        },
        None => {},
    }
    let n: u64 = match parse_decimal(discrim, 65535) {
        Some(v) => v % 5,
        None => 5,
    };
    let mut out = String::from_str("https://cdn.discordapp.com/embed/avatars/");
    push_decimal(&mut out, n);
    out.append(".png?width=256&height=256");
    out
}

/// The whole units of a span of seconds, largest first: weeks, then days,
/// hours, minutes and seconds within the next larger unit. Each count is
/// truncated towards zero, so all carry the sign of the span.
pub open spec fn unit_counts(secs: i64) -> Seq<int> {
    let m: int = if secs < 0 {
        -secs
    } else {
        secs as int
    };
    let sign: int = if secs < 0 {
        -1
    } else {
        1
    };
    seq![
        sign * (m / 604800),
        sign * ((m / 86400) % 7),
        sign * ((m / 3600) % 24),
        sign * ((m / 60) % 60),
        sign * (m % 60),
    ]
}

/// One unit of a span's text: nothing for a zero count, else the count and
/// the unit's name (plural unless the count is one), after a comma where
/// another unit came before.
pub open spec fn unit_text(n: int, name: Seq<char>, after_other: bool) -> Seq<char> {
    if n == 0 {
        Seq::empty()
    } else {
        (if after_other {
            ", "@
        } else {
            Seq::empty()
        }) + signed_decimal(n) + " "@ + name + if n == 1 {
            Seq::empty()
        } else {
            "s"@
        }
    }
}

/// The text of a span of seconds, such as `2 weeks, 1 day, 3 seconds`.
pub open spec fn duration_text(secs: i64) -> Seq<char> {
    let c = unit_counts(secs);
    unit_text(c[0], "week"@, false) + unit_text(c[1], "day"@, c[0] != 0) + unit_text(
        c[2],
        "hour"@,
        c[0] != 0 || c[1] != 0,
    ) + unit_text(c[3], "minute"@, c[0] != 0 || c[1] != 0 || c[2] != 0) + unit_text(
        c[4],
        "second"@,
        c[0] != 0 || c[1] != 0 || c[2] != 0 || c[3] != 0,
    )
}

fn push_unit(out: &mut String, n: i64, name: &str, after_other: bool)
    ensures
        final(out)@ == old(out)@ + unit_text(n as int, name@, after_other),
{
    if n != 0 {
        let ghost start = out@;
        if after_other {
            out.append(", ");
        }
        push_signed_decimal(out, n);
        out.append(" ");
        out.append(name);
        if n != 1 {
            out.append("s");
        }
        assert(out@ =~= start + unit_text(n as int, name@, after_other));
    } else {
        assert(out@ =~= old(out)@ + unit_text(n as int, name@, after_other));
    }
}

/// The text of a span of seconds, largest unit first.
pub fn duration_fmt(secs: i64) -> (r: String)
    ensures
        r@ == duration_text(secs),
{
    let m: u64 = if secs < 0 {
        (0i128 - secs as i128) as u64
    } else {
        secs as u64
    };
    let c0: i64 = (m / 604800) as i64;
    let c1: i64 = ((m / 86400) % 7) as i64;
    let c2: i64 = ((m / 3600) % 24) as i64;
    let c3: i64 = ((m / 60) % 60) as i64;
    let c4: i64 = (m % 60) as i64;
    let neg: bool = secs < 0;
    let w: i64 = if neg { -c0 } else { c0 };
    let d: i64 = if neg { -c1 } else { c1 };
    let h: i64 = if neg { -c2 } else { c2 };
    let mi: i64 = if neg { -c3 } else { c3 };
    let s: i64 = if neg { -c4 } else { c4 };
    let ghost c = unit_counts(secs);
    let ghost mi_: int = if secs < 0 {
        -secs
    } else {
        secs as int
    };
    assert(m as int == mi_);
    if secs < 0 {
        assert(c[0] == -1 * (mi_ / 604800));
        assert(c[1] == -1 * ((mi_ / 86400) % 7));
        assert(c[2] == -1 * ((mi_ / 3600) % 24));
        assert(c[3] == -1 * ((mi_ / 60) % 60));
        assert(c[4] == -1 * (mi_ % 60));
    } else {
        assert(c[0] == 1 * (mi_ / 604800));
        assert(c[1] == 1 * ((mi_ / 86400) % 7));
        assert(c[2] == 1 * ((mi_ / 3600) % 24));
        assert(c[3] == 1 * ((mi_ / 60) % 60));
        assert(c[4] == 1 * (mi_ % 60));
    }
    assert(c0 == mi_ / 604800);
    assert(c1 == (mi_ / 86400) % 7);
    assert(c[0] == w);
    assert(c[1] == d);
    assert(c[2] == h);
    assert(c[3] == mi);
    assert(c[4] == s);
    let mut out = String::new();
    push_unit(&mut out, w, "week", false);
    push_unit(&mut out, d, "day", w != 0);
    push_unit(&mut out, h, "hour", w != 0 || d != 0);
    push_unit(&mut out, mi, "minute", w != 0 || d != 0 || h != 0);
    push_unit(&mut out, s, "second", w != 0 || d != 0 || h != 0 || mi != 0);
    assert(out@ =~= duration_text(secs));
    out
}

/// Relies on `chrono::DateTime::from_timestamp_millis`,
/// `chrono::Utc::now` and `signed_duration_since`: whole seconds from a
/// millisecond timestamp to now, or `None` where chrono cannot represent the
/// timestamp. It depends on the clock, so nothing is promised of it.
#[verifier::external_body]
pub fn time_since_epoch(update_epoch_time: i64) -> (r: Option<i64>) {
    let update_time = chrono::DateTime::from_timestamp_millis(update_epoch_time)?;
    Some(chrono::Utc::now().signed_duration_since(update_time).num_seconds())
}

/// How long ago a record was synced, as text; `None` for a record never
/// synced or a time that cannot be represented.
pub fn last_update_text(last_updated: Option<i64>) -> (r: Option<String>)
    ensures
        last_updated is None ==> r is None,
        r matches Some(t) ==> exists|secs: i64| t@ == duration_text(secs),
{
    match last_updated {
        Some(t) => match time_since_epoch(t) {
            Some(secs) => Some(duration_fmt(secs)),
            None => None,
        },
        None => None,
    }
}

/// The standard base64 text (with padding) of some bytes.
pub uninterp spec fn base64_standard(bytes: Seq<u8>) -> Seq<char>;

/// Relies on `base64::engine::general_purpose::STANDARD.encode`: the standard
/// alphabet with padding, a function of the bytes alone; no bytes give no
/// text.
#[verifier::external_body]
fn encode_base64(bytes: &[u8]) -> (r: String)
    ensures
        r@ == base64_standard(bytes@),
        bytes@.len() == 0 ==> r@.len() == 0,
{
    base64::engine::general_purpose::STANDARD.encode(bytes)
}

/// A `data:` address that embeds a PNG image.
pub fn png_data_uri(png: &Vec<u8>) -> (r: String)
    ensures
        r@ == "data:image/png;base64,"@ + base64_standard(png@),
{
    let encoded = encode_base64(png.as_slice());
    let mut out = String::from_str("data:image/png;base64,");
    out.append(encoded.as_str());
    out
}

} // verus!
