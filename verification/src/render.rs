//! Verified text rendering: timestamps, decimal numbers, username colors,
//! separators and participant lists, exactly as they appear on a terminal.

use vstd::prelude::*;
use vstd::string::StringSliceAdditionalSpecFns;

use crate::clock;
use crate::colors::Colors;

verus! {

/// The decimal digit character for a value below ten.
pub open spec fn digit_char(d: int) -> char {
    if d == 0 {
        '0'
    } else if d == 1 {
        '1'
    } else if d == 2 {
        '2'
    } else if d == 3 {
        '3'
    } else if d == 4 {
        '4'
    } else if d == 5 {
        '5'
    } else if d == 6 {
        '6'
    } else if d == 7 {
        '7'
    } else if d == 8 {
        '8'
    } else {
        '9'
    }
}

/// The decimal rendering of a non-negative number, most significant digit
/// first.
pub open spec fn dec_chars(n: int) -> Seq<char>
    decreases n,
{
    if n < 10 {
        seq![digit_char(n)]
    } else {
        dec_chars(n / 10) + seq![digit_char(n % 10)]
    }
}

/// A number below one hundred rendered as exactly two digits.
pub open spec fn two_digit_chars(n: int) -> Seq<char> {
    seq![digit_char(n / 10), digit_char(n % 10)]
}

/// A wall-clock reading rendered as HH:MM:SS.
pub open spec fn hms_chars(h: int, m: int, s: int) -> Seq<char> {
    two_digit_chars(h) + seq![':'] + two_digit_chars(m) + seq![':'] + two_digit_chars(s)
}

/// Holds when `t` is the HH:MM:SS rendering of some wall-clock reading.
pub open spec fn is_clock_chars(t: Seq<char>) -> bool {
    exists|h: int, m: int, s: int|
        0 <= h < 24 && 0 <= m < 60 && 0 <= s < 60 && t == hms_chars(h, m, s)
}

fn digit_str(d: u8) -> (r: &'static str)
    requires
        d < 10,
    ensures
        r@ == seq![digit_char(d as int)],
{
    proof {
        reveal_strlit("0");
        reveal_strlit("1");
        reveal_strlit("2");
        reveal_strlit("3");
        reveal_strlit("4");
        reveal_strlit("5");
        reveal_strlit("6");
        reveal_strlit("7");
        reveal_strlit("8");
        reveal_strlit("9");
    }
    if d == 0 {
        "0"
    } else if d == 1 {
        "1"
    } else if d == 2 {
        "2"
    } else if d == 3 {
        "3"
    } else if d == 4 {
        "4"
    } else if d == 5 {
        "5"
    } else if d == 6 {
        "6"
    } else if d == 7 {
        "7"
    } else if d == 8 {
        "8"
    } else {
        "9"
    }
}

/// Renders a number in decimal, most significant digit first.
pub fn decimal_string(n: u64) -> (r: String)
    ensures
        r@ == dec_chars(n as int),
    decreases n,
{
    if n < 10 {
        String::from_str(digit_str(n as u8))
    } else {
        let prefix = decimal_string(n / 10);
        prefix.concat(digit_str((n % 10) as u8))
    }
}

fn two_digit_string(n: u8) -> (r: String)
    requires
        n < 100,
    ensures
        r@ == two_digit_chars(n as int),
{
    let mut r = String::from_str(digit_str(n / 10));
    r.append(digit_str(n % 10));
    r
}

/// Renders a wall-clock reading as HH:MM:SS.
pub fn format_hms(h: u8, m: u8, s: u8) -> (r: String)
    requires
        h < 24,
        m < 60,
        s < 60,
    ensures
        r@ == hms_chars(h as int, m as int, s as int),
{
    proof {
        reveal_strlit(":");
    }
    let mut r = two_digit_string(h);
    r.append(":");
    r.append(two_digit_string(m).as_str());
    r.append(":");
    r.append(two_digit_string(s).as_str());
    r
}

/// Format a unix timestamp (seconds since epoch) to a readable time
pub fn format_timestamp_from_unix(timestamp: u64) -> (r: String)
    ensures
        is_clock_chars(r@),
{
    match clock::local_clock_parts(timestamp) {
        Some((h, m, s)) => format_hms(h, m, s),
        None => format_hms(0, 0, 0),
    }
}

/// `s` repeated `n` times.
pub open spec fn repeat_chars(s: Seq<char>, n: int) -> Seq<char>
    decreases n,
{
    if n <= 0 {
        Seq::empty()
    } else {
        repeat_chars(s, n - 1) + s
    }
}

fn repeat_str(s: &str, n: usize) -> (r: String)
    ensures
        r@ == repeat_chars(s@, n as int),
{
    let mut r = String::new();
    let mut i: usize = 0;
    while i < n
        invariant
            i <= n,
            r@ == repeat_chars(s@, i as int),
        decreases n - i,
    {
        r.append(s);
        i = i + 1;
    }
    assert(r@ == repeat_chars(s@, n as int));
    r
}

/// The byte sum that picks a username's color: addition wrapping at 2^32.
pub open spec fn wrap_sum(s: Seq<u8>) -> int
    decreases s.len(),
{
    if s.len() == 0 {
        0
    } else {
        (wrap_sum(s.drop_last()) + s.last()) % 0x1_0000_0000
    }
}

/// The color assigned to a username, from its wrapped byte sum.
pub open spec fn username_color_chars(name: Seq<u8>) -> Seq<char> {
    let idx = wrap_sum(name) % 6;
    if idx == 0 {
        Colors::BRIGHT_RED@
    } else if idx == 1 {
        Colors::BRIGHT_GREEN@
    } else if idx == 2 {
        Colors::BRIGHT_YELLOW@
    } else if idx == 3 {
        Colors::BRIGHT_CYAN@
    } else if idx == 4 {
        Colors::BRIGHT_MAGENTA@
    } else {
        Colors::BRIGHT_BLUE@
    }
}

/// Get a consistent color for a username
pub fn get_username_color(username: &str) -> (r: &'static str)
    ensures
        r@ == username_color_chars(username.spec_bytes()),
{
    let bytes = username.as_bytes();
    let mut acc: u32 = 0;
    let mut i: usize = 0;
    while i < bytes.len()
        invariant
            i <= bytes@.len(),
            bytes@ == username.spec_bytes(),
            acc == wrap_sum(bytes@.take(i as int)),
        decreases bytes@.len() - i,
    {
        let b = bytes[i];
        acc = ((acc as u64 + b as u64) % 0x1_0000_0000) as u32;
        proof {
            assert(bytes@.take(i + 1).drop_last() =~= bytes@.take(i as int));
            assert(bytes@.take(i + 1).last() == b);
        }
        i = i + 1;
    }
    proof {
        assert(bytes@.take(bytes@.len() as int) =~= bytes@);
    }
    let idx = acc % 6;
    if idx == 0 {
        Colors::BRIGHT_RED
    } else if idx == 1 {
        Colors::BRIGHT_GREEN
    } else if idx == 2 {
        Colors::BRIGHT_YELLOW
    } else if idx == 3 {
        Colors::BRIGHT_CYAN
    } else if idx == 4 {
        Colors::BRIGHT_MAGENTA
    } else {
        Colors::BRIGHT_BLUE
    }
}

/// The separator line of a given width, with an optional centered title.
/// Widths count bytes, as the terminal-width convention here is ASCII.
pub open spec fn separator_chars(title: Option<(Seq<char>, int)>, width: int) -> Seq<char> {
    match title {
        Option::Some((text, text_bytes)) => {
            let remaining = if width - text_bytes - 2 >= 0 {
                width - text_bytes - 2
            } else {
                0
            };
            let left = remaining / 2;
            let right = remaining - left;
            Colors::DIM@ + repeat_chars("─"@, left) + Colors::RESET@ + seq![' '] + text + seq![' ']
                + Colors::DIM@ + repeat_chars("─"@, right) + Colors::RESET@
        },
        Option::None => Colors::DIM@ + repeat_chars("─"@, width) + Colors::RESET@,
    }
}

/// One participant name wrapped in its color: the caller's own name in
/// bright blue, everyone else in the color their byte sum picks.
pub open spec fn participant_chars(name: Seq<char>, user: Seq<char>) -> Seq<char> {
    if name == user {
        Colors::BRIGHT_BLUE@ + name + Colors::RESET@
    } else {
        username_color_chars(vstd::utf8::encode_utf8(name)) + name + Colors::RESET@
    }
}

/// A non-empty participant list joined with commas.
pub open spec fn participants_chars(ps: Seq<String>, user: Seq<char>) -> Seq<char>
    decreases ps.len(),
{
    if ps.len() <= 1 {
        if ps.len() == 0 {
            Seq::empty()
        } else {
            participant_chars(ps[0]@, user)
        }
    } else {
        participants_chars(ps.drop_last(), user) + ", "@ + participant_chars(ps.last()@, user)
    }
}

fn render_participant(name: &String, user: &String) -> (r: String)
    ensures
        r@ == participant_chars(name@, user@),
{
    let color = if *name == *user {
        Colors::BRIGHT_BLUE
    } else {
        get_username_color(name.as_str())
    };
    let mut r = String::from_str(color);
    r.append(name.as_str());
    r.append(Colors::RESET);
    r
}

/// Returns a formatted list of participants
pub fn format_participants(participants: &[String], username: &str) -> (r: String)
    ensures
        participants@.len() == 0 ==> r@ == Colors::DIM@ + "No other participants"@
            + Colors::RESET@,
        participants@.len() > 0 ==> r@ == participants_chars(participants@, username@),
{
    if participants.len() == 0 {
        let mut r = String::from_str(Colors::DIM);
        r.append("No other participants");
        r.append(Colors::RESET);
        return r;
    }
    let user = username.to_owned();
    let mut r = render_participant(&participants[0], &user);
    let mut i: usize = 1;
    while i < participants.len()
        invariant
            1 <= i <= participants@.len(),
            user@ == username@,
            r@ == participants_chars(participants@.take(i as int), username@),
        decreases participants@.len() - i,
    {
        r.append(", ");
        r.append(render_participant(&participants[i], &user).as_str());
        proof {
            assert(participants@.take(i + 1).drop_last() =~= participants@.take(i as int));
            assert(participants@.take(i + 1).last() == participants@[i as int]);
        }
        i = i + 1;
    }
    proof {
        assert(participants@.take(participants@.len() as int) =~= participants@);
    }
    r
}

/// What is left of a string after cutting it down to a maximum length:
/// `len` is the string's reported byte length.
pub open spec fn truncated_chars(s: Seq<char>, len: int, max_len: int) -> Seq<char> {
    if len <= max_len {
        s
    } else {
        s.subrange(
            0,
            if max_len > 3 {
                max_len - 3
            } else {
                0
            },
        ) + "..."@
    }
}

/// Truncate a string if it's too long
pub fn truncate_str(s: &str, max_len: usize) -> (r: String)
    requires
        s.len() > max_len ==> s.is_ascii() && s@.len() <= usize::MAX,
    ensures
        r@ == truncated_chars(s@, s.len() as int, max_len as int),
{
    if s.len() <= max_len {
        s.to_owned()
    } else {
        let cut = if max_len > 3 {
            max_len - 3
        } else {
            0
        };
        let mut r = s.substring_ascii(0, cut).to_owned();
        r.append("...");
        r
    }
}

/// Format a Nym address for display
pub fn format_nym_address(address: &str) -> (r: String)
    requires
        address.len() > 12 ==> address.is_ascii() && address@.len() <= usize::MAX,
    ensures
        address.len() <= 12 ==> r@ == address@,
        address.len() > 12 ==> r@ == Colors::DIM@ + address@.subrange(0, 6) + "..."@
            + address@.subrange(address.len() - 6, address.len() as int),
{
    if address.len() <= 12 {
        return address.to_owned();
    }
    let prefix = address.substring_ascii(0, 6);
    let suffix = address.substring_ascii(address.len() - 6, address.len());
    let mut r = String::from_str(Colors::DIM);
    r.append(prefix);
    r.append("...");
    r.append(suffix);
    r
}

/// The `tag=` piece of the debug info line, for a sender tag cut to eight
/// bytes.
pub open spec fn tag_part_chars(tag: Seq<char>, len: int) -> Seq<char> {
    "tag="@ + Colors::CYAN@ + truncated_chars(tag, len, 8) + Colors::RESET@
}

/// The `surbs=` piece of the debug info line.
pub open spec fn surb_part_chars(count: int) -> Seq<char> {
    "surbs="@ + Colors::YELLOW@ + dec_chars(count) + Colors::RESET@
}

/// Format Nym-specific debug information
pub fn format_nym_debug_info(sender_tag: Option<&str>, surbs: Option<u32>) -> (r: String)
    requires
        sender_tag matches Some(t) ==> t.len() > 8 ==> t.is_ascii() && t@.len() <= usize::MAX,
    ensures
        sender_tag is None && surbs is None ==> r@ == Seq::<char>::empty(),
        sender_tag matches Some(t) ==> surbs is None ==> r@ == " ["@ + tag_part_chars(
            t@,
            t.len() as int,
        ) + "]"@,
        surbs matches Some(n) ==> sender_tag is None ==> r@ == " ["@ + surb_part_chars(n as int)
            + "]"@,
        sender_tag matches Some(t) ==> surbs matches Some(n) ==> r@ == " ["@ + tag_part_chars(
            t@,
            t.len() as int,
        ) + ", "@ + surb_part_chars(n as int) + "]"@,
{
    if sender_tag.is_none() && surbs.is_none() {
        return String::new();
    }
    let mut r = String::from_str(" [");
    match sender_tag {
        Some(tag) => {
            r.append("tag=");
            r.append(Colors::CYAN);
            r.append(truncate_str(tag, 8).as_str());
            r.append(Colors::RESET);
            if surbs.is_some() {
                r.append(", ");
            }
        },
        None => {},
    }
    match surbs {
        Some(surb_count) => {
            r.append("surbs=");
            r.append(Colors::YELLOW);
            r.append(decimal_string(surb_count as u64).as_str());
            r.append(Colors::RESET);
        },
        None => {},
    }
    r.append("]");
    r
}

/// Generates a horizontal separator line with optional title
pub fn separator(title: Option<&str>, width: usize) -> (r: String)
    ensures
        (title matches Some(text) ==> r@ == separator_chars(
            Some((text@, text.len() as int)),
            width as int,
        )),
        title is None ==> r@ == separator_chars(None, width as int),
{
    proof {
        reveal_strlit(" ");
    }
    let line_char = "─";
    match title {
        Some(text) => {
            let text_len = text.len();
            let remaining: usize = if width > text_len && width - text_len > 2 {
                width - text_len - 2
            } else {
                0
            };
            let left = remaining / 2;
            let right = remaining - left;
            let mut r = String::from_str(Colors::DIM);
            r.append(repeat_str(line_char, left).as_str());
            r.append(Colors::RESET);
            r.append(" ");
            r.append(text);
            r.append(" ");
            r.append(Colors::DIM);
            r.append(repeat_str(line_char, right).as_str());
            r.append(Colors::RESET);
            proof {
                assert(" "@ =~= seq![' ']);
                assert(r@ =~= separator_chars(
                    Some((text@, text.len() as int)),
                    width as int,
                ));
            }
            r
        },
        None => {
            let mut r = String::from_str(Colors::DIM);
            r.append(repeat_str(line_char, width).as_str());
            r.append(Colors::RESET);
            r
        },
    }
}

} // verus!
