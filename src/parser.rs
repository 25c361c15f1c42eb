//! Reading the values of the domain from words typed by a user. Nothing here
//! fails: a word that names nothing gives the field's default.
use crate::codec::{Brightness, Color, Mode, Region};
use crate::text::{
    byte_len, byte_len_up_to, chars_of, digit_value, digits_value, lower_of, lowercase, parse_u8,
    same_chars, spec_split, split, value_up_to,
};
use vstd::prelude::*;

verus! {

/// The palette color that a lowercase word names; `Off` for any other word.
pub open spec fn color_named(w: Seq<char>) -> Color {
    if w == seq!['o', 'f', 'f'] {
        Color::Off
    } else if w == seq!['r', 'e', 'd'] {
        Color::Red
    } else if w == seq!['o', 'r', 'a', 'n', 'g', 'e'] {
        Color::Orange
    } else if w == seq!['y', 'e', 'l', 'l', 'o', 'w'] {
        Color::Yellow
    } else if w == seq!['g', 'r', 'e', 'e', 'n'] {
        Color::Green
    } else if w == seq!['s', 'k', 'y'] {
        Color::Sky
    } else if w == seq!['b', 'l', 'u', 'e'] {
        Color::Blue
    } else if w == seq!['p', 'u', 'r', 'p', 'l', 'e'] {
        Color::Purple
    } else if w == seq!['w', 'h', 'i', 't', 'e'] {
        Color::White
    } else {
        Color::Off
    }
}

/// The region that a lowercase word names; `All` for any other word.
pub open spec fn region_named(w: Seq<char>) -> Region {
    if w == seq!['l', 'e', 'f', 't'] {
        Region::Left
    } else if w == seq!['m', 'i', 'd', 'd', 'l', 'e'] {
        Region::Middle
    } else if w == seq!['r', 'i', 'g', 'h', 't'] {
        Region::Right
    } else {
        Region::All
    }
}

/// The brightness that a lowercase word names; `Medium` for any other word.
pub open spec fn brightness_named(w: Seq<char>) -> Brightness {
    if w == seq!['d', 'a', 'r', 'k'] {
        Brightness::Dark
    } else if w == seq!['l', 'o', 'w'] {
        Brightness::Low
    } else if w == seq!['h', 'i', 'g', 'h'] {
        Brightness::High
    } else {
        Brightness::Medium
    }
}

/// The mode that a lowercase word names; `Normal` for any other word.
pub open spec fn mode_named(w: Seq<char>) -> Mode {
    if w == seq!['g', 'a', 'm', 'i', 'n', 'g'] {
        Mode::Gaming
    } else if w == seq!['r', 'g', 'b'] {
        Mode::RGB
    } else {
        Mode::Normal
    }
}

/// The palette color named by an already lowercased word.
pub fn color_from_lowercase(w: &Vec<char>) -> (r: Color)
    ensures
        r == color_named(w@),
{
    if same_chars(w, &['o', 'f', 'f']) {
        Color::Off
    } else if same_chars(w, &['r', 'e', 'd']) {
        Color::Red
    } else if same_chars(w, &['o', 'r', 'a', 'n', 'g', 'e']) {
        Color::Orange
    } else if same_chars(w, &['y', 'e', 'l', 'l', 'o', 'w']) {
        Color::Yellow
    } else if same_chars(w, &['g', 'r', 'e', 'e', 'n']) {
        Color::Green
    } else if same_chars(w, &['s', 'k', 'y']) {
        Color::Sky
    } else if same_chars(w, &['b', 'l', 'u', 'e']) {
        Color::Blue
    } else if same_chars(w, &['p', 'u', 'r', 'p', 'l', 'e']) {
        Color::Purple
    } else if same_chars(w, &['w', 'h', 'i', 't', 'e']) {
        Color::White
    } else {
        Color::Off
    }
}

/// The region named by an already lowercased word.
pub fn region_from_lowercase(w: &Vec<char>) -> (r: Region)
    ensures
        r == region_named(w@),
{
    if same_chars(w, &['l', 'e', 'f', 't']) {
        Region::Left
    } else if same_chars(w, &['m', 'i', 'd', 'd', 'l', 'e']) {
        Region::Middle
    } else if same_chars(w, &['r', 'i', 'g', 'h', 't']) {
        Region::Right
    } else {
        Region::All
    }
}

/// The brightness named by an already lowercased word.
pub fn brightness_from_lowercase(w: &Vec<char>) -> (r: Brightness)
    ensures
        r == brightness_named(w@),
{
    if same_chars(w, &['d', 'a', 'r', 'k']) {
        Brightness::Dark
    } else if same_chars(w, &['l', 'o', 'w']) {
        Brightness::Low
    } else if same_chars(w, &['h', 'i', 'g', 'h']) {
        Brightness::High
    } else {
        Brightness::Medium
    }
}

/// The mode named by an already lowercased word.
pub fn mode_from_lowercase(w: &Vec<char>) -> (r: Mode)
    ensures
        r == mode_named(w@),
{
    if same_chars(w, &['g', 'a', 'm', 'i', 'n', 'g']) {
        Mode::Gaming
    } else if same_chars(w, &['r', 'g', 'b']) {
        Mode::RGB
    } else {
        Mode::Normal
    }
}

/// The palette color that `color` names, in any case; `Off` if it names none.
pub fn parse_color(color: &String) -> (r: Color)
    ensures
        r == color_named(lower_of(color@)),
{
    color_from_lowercase(&lowercase(&chars_of(color.as_str())))
}

/// The region that `region` names, in any case; `All` if it names none.
pub fn parse_region(region: &String) -> (r: Region)
    ensures
        r == region_named(lower_of(region@)),
{
    region_from_lowercase(&lowercase(&chars_of(region.as_str())))
}

/// The brightness that `brightness` names, in any case; `Medium` if it names
/// none.
pub fn parse_brightness(brightness: &String) -> (r: Brightness)
    ensures
        r == brightness_named(lower_of(brightness@)),
{
    brightness_from_lowercase(&lowercase(&chars_of(brightness.as_str())))
}

/// The mode that `mode` names, in any case; `Normal` if it names none.
pub fn parse_mode(mode: &String) -> (r: Mode)
    ensures
        r == mode_named(lower_of(mode@)),
{
    mode_from_lowercase(&lowercase(&chars_of(mode.as_str())))
}

/// A channel read from text; 0 where the text is no number of that channel.
pub open spec fn channel(v: Option<nat>) -> u8 {
    match v {
        Some(v) => v as u8,
        None => 0,
    }
}

/// `0xRRGGBB` written as `#RRGGBB`: text of 8 bytes that starts with `0x`
/// gets `#` in place of that prefix. Any other text stays as it is.
pub open spec fn hash_form(s: Seq<char>) -> Seq<char> {
    if byte_len(s) == 8 && s.len() >= 2 && s[0] == '0' && s[1] == 'x' {
        seq!['#'] + s.subrange(2, s.len() as int)
    } else {
        s
    }
}

/// Whether `c` is a hex digit, in either case.
pub open spec fn is_hex_digit(c: char) -> bool {
    digit_value(c) < 16
}

/// The channel written by the two hex digits at `start` of `t`; 0 where
/// either of the two characters is missing or is no hex digit.
pub open spec fn hex_channel(t: Seq<char>, start: int) -> u8 {
    if start + 2 <= t.len() && is_hex_digit(t[start]) && is_hex_digit(t[start + 1]) {
        (16 * digit_value(t[start]) + digit_value(t[start + 1])) as u8
    } else {
        0
    }
}

/// The channel written in decimal by the piece `i` of `parts`; 0 where there
/// is no such piece.
pub open spec fn decimal_channel(parts: Seq<Seq<char>>, i: int) -> u8 {
    if i < parts.len() {
        channel(value_up_to(parts[i], 10, 255))
    } else {
        0
    }
}

/// The (red, green, blue) triple that `s` writes. Text of 7 bytes that starts
/// with `#` (after `0x` became `#`) holds two hex digits per channel; any
/// other text holds decimal numbers separated by `;`. Each channel that
/// cannot be read, or is missing, is 0.
pub open spec fn rgb_written(s: Seq<char>) -> Seq<u8> {
    let t = hash_form(s);
    if byte_len(t) == 7 && t.len() >= 1 && t[0] == '#' {
        seq![hex_channel(t, 1), hex_channel(t, 3), hex_channel(t, 5)]
    } else {
        let parts = spec_split(t, ';');
        seq![decimal_channel(parts, 0), decimal_channel(parts, 1), decimal_channel(parts, 2)]
    }
}

fn channel_of(v: Option<u8>) -> (r: u8)
    ensures
        r == (match v {
            Some(b) => b,
            None => 0u8,
        }),
{
    match v {
        Some(b) => b,
        None => 0,
    }
}

fn hex_digit(c: char) -> (r: bool)
    ensures
        r == is_hex_digit(c),
{
    ('0' <= c && c <= '9') || ('a' <= c && c <= 'f') || ('A' <= c && c <= 'F')
}

proof fn lemma_hex_pair(p: Seq<char>)
    requires
        p.len() == 2,
        is_hex_digit(p[0]),
        is_hex_digit(p[1]),
    ensures
        value_up_to(p, 16, 255) == Some(16 * digit_value(p[0]) + digit_value(p[1])),
{
    let q = p.drop_last();
    assert(q.drop_last() =~= Seq::<char>::empty());
    assert(q.last() == p[0]);
    assert(digits_value(q.drop_last(), 16) == 0);
    assert(digits_value(q, 16) == digit_value(p[0]));
    assert(digits_value(p, 16) == 16 * digit_value(p[0]) + digit_value(p[1]));
}

/// The channel written by the two hex digits at `start` of `t`.
fn read_hex_channel(t: &Vec<char>, start: usize) -> (r: u8)
    requires
        start <= 5,
    ensures
        r == hex_channel(t@, start as int),
{
    if start + 2 <= t.len() && hex_digit(t[start]) && hex_digit(t[start + 1]) {
        let pair = vec![t[start], t[start + 1]];
        proof {
            lemma_hex_pair(pair@);
        }
        channel_of(parse_u8(&pair, 16))
    } else {
        0
    }
}

pub(crate) fn rgb_chars(s: &Vec<char>) -> (r: [u8; 3])
    ensures
        r@ == rgb_written(s@),
{
    let mut t: Vec<char> = Vec::new();
    if byte_len_up_to(s, 8) == 8 && s.len() >= 2 && s[0] == '0' && s[1] == 'x' {
        t.push('#');
        for i in 2..s.len()
            invariant
                s.len() >= 2,
                t@ == seq!['#'] + s@.subrange(2, i as int),
        {
            t.push(s[i]);
            assert(t@ =~= seq!['#'] + s@.subrange(2, i + 1));
        }
    } else {
        t = s.clone();
    }
    assert(t@ =~= hash_form(s@));
    let mut ch: Vec<u8> = Vec::new();
    if byte_len_up_to(&t, 8) == 7 && t.len() >= 1 && t[0] == '#' {
        ch.push(read_hex_channel(&t, 1));
        ch.push(read_hex_channel(&t, 3));
        ch.push(read_hex_channel(&t, 5));
    } else {
        let parts = split(&t, ';');
        for k in 0..3usize
            invariant
                crate::text::pieces_view(parts@) == spec_split(t@, ';'),
                ch.len() == k,
                forall|j: int| 0 <= j < k ==> ch@[j] == decimal_channel(spec_split(t@, ';'), j),
        {
            if k < parts.len() {
                assert(parts@[k as int]@ == spec_split(t@, ';')[k as int]);
                ch.push(channel_of(parse_u8(&parts[k], 10)));
            } else {
                ch.push(0);
            }
        }
    }
    let rgb = [ch[0], ch[1], ch[2]];
    assert(rgb@ =~= rgb_written(s@));
    rgb
}

/// The (red, green, blue) triple that `color` writes, as `#RRGGBB`, `0xRRGGBB`
/// or three decimal numbers separated by `;`. The two hex forms are told by
/// their length in bytes, 7 and 8. It never fails: each channel that cannot
/// be read, or is missing, is 0.
pub fn parse_rgb_colors(color: &String) -> (r: [u8; 3])
    ensures
        r@ == rgb_written(color@),
{
    rgb_chars(&chars_of(color.as_str()))
}

} // verus!
