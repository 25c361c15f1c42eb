//! Animation scripts: lines of comma-separated `key:value` directives
//! (`region:left, color:#ff0000`, `sleep:500`, `reset`, `off`), and a line
//! `loop_forever` that makes the whole script repeat.
use crate::codec::KeyboardRGBLightData;
use crate::parser::{region_from_lowercase, region_named, rgb_chars, rgb_written};
use crate::text::{
    copy_range, find, lower_of, lowercase, parse_u64, pieces_view, same_chars, spec_find,
    spec_split, spec_trim, split, trim, value_up_to,
};
use vstd::prelude::*;

verus! {

/// One step of an animation.
#[derive(Debug, Clone, Copy, PartialEq, Eq)]
pub enum Directive {
    /// Every region white, then the `Normal` mode.
    Reset,
    /// Every region off, then the `Normal` mode.
    Off,
    /// Wait this many milliseconds.
    Sleep(u64),
    /// Set a raw RGB color.
    SetColor(KeyboardRGBLightData),
}

pub open spec fn word_reset() -> Seq<char> {
    seq!['r', 'e', 's', 'e', 't']
}

pub open spec fn word_off() -> Seq<char> {
    seq!['o', 'f', 'f']
}

pub open spec fn word_sleep() -> Seq<char> {
    seq!['s', 'l', 'e', 'e', 'p']
}

pub open spec fn word_region() -> Seq<char> {
    seq!['r', 'e', 'g', 'i', 'o', 'n']
}

pub open spec fn word_color() -> Seq<char> {
    seq!['c', 'o', 'l', 'o', 'r']
}

pub open spec fn word_loop_forever() -> Seq<char> {
    seq!['l', 'o', 'o', 'p', '_', 'f', 'o', 'r', 'e', 'v', 'e', 'r']
}

/// Whether the token `t` has the form `key:value`.
pub open spec fn has_colon(t: Seq<char>) -> bool {
    spec_find(t, ':') < t.len()
}

/// What stands before the first `:` of `t`, trimmed.
pub open spec fn key_of(t: Seq<char>) -> Seq<char> {
    spec_trim(t.subrange(0, spec_find(t, ':')))
}

/// What stands after the first `:` of `t`, trimmed.
pub open spec fn value_of(t: Seq<char>) -> Seq<char> {
    spec_trim(t.subrange(spec_find(t, ':') + 1, t.len() as int))
}

/// Whether the token `t` sets `key`.
pub open spec fn sets(t: Seq<char>, key: Seq<char>) -> bool {
    has_colon(t) && key_of(t) == key
}

/// The pause that a `sleep` value asks for: its decimal value, or 0 where it
/// is no number that fits in 64 bits.
pub open spec fn sleep_millis(v: Seq<char>) -> u64 {
    match value_up_to(v, 10, u64::MAX as nat) {
        Some(n) => n as u64,
        None => 0,
    }
}

/// What a trimmed token does at once: `reset`, `off` and `sleep:<ms>`.
pub open spec fn token_action(t: Seq<char>) -> Seq<Directive> {
    if has_colon(t) {
        if key_of(t) == word_sleep() {
            seq![Directive::Sleep(sleep_millis(value_of(t)))]
        } else {
            Seq::empty()
        }
    } else if t == word_reset() {
        seq![Directive::Reset]
    } else if t == word_off() {
        seq![Directive::Off]
    } else {
        Seq::empty()
    }
}

/// The directives that the tokens of a line carry out at once, in order.
pub open spec fn immediate(tokens: Seq<Seq<char>>) -> Seq<Directive>
    decreases tokens.len(),
{
    if tokens.len() == 0 {
        Seq::empty()
    } else {
        immediate(tokens.drop_last()) + token_action(spec_trim(tokens.last()))
    }
}

/// The value that the last token setting `key` gives it, if any does.
pub open spec fn last_setting(tokens: Seq<Seq<char>>, key: Seq<char>) -> Option<Seq<char>>
    decreases tokens.len(),
{
    if tokens.len() == 0 {
        None
    } else if sets(spec_trim(tokens.last()), key) {
        Some(value_of(spec_trim(tokens.last())))
    } else {
        last_setting(tokens.drop_last(), key)
    }
}

/// The color set by a line that gives `region` and `color`.
pub open spec fn color_setting(region: Seq<char>, color: Seq<char>) -> Directive {
    let rgb = rgb_written(color);
    Directive::SetColor(
        KeyboardRGBLightData {
            region: region_named(lower_of(region)),
            color: (rgb[0], rgb[1], rgb[2]),
        },
    )
}

/// The directives of one line: those of its tokens in order, then one color
/// setting if the line gives both a region and a color.
pub open spec fn line_directives(line: Seq<char>) -> Seq<Directive> {
    let tokens = spec_split(line, ',');
    immediate(tokens) + match (
        last_setting(tokens, word_region()),
        last_setting(tokens, word_color()),
    ) {
        (Some(r), Some(c)) => seq![color_setting(r, c)],
        _ => Seq::empty(),
    }
}

/// The directives of a list of lines, in order.
pub open spec fn lines_directives(lines: Seq<Seq<char>>) -> Seq<Directive>
    decreases lines.len(),
{
    if lines.len() == 0 {
        Seq::empty()
    } else {
        lines_directives(lines.drop_last()) + line_directives(lines.last())
    }
}

/// The directives of a script, in order.
pub open spec fn script_directives(text: Seq<char>) -> Seq<Directive> {
    lines_directives(spec_split(text, '\n'))
}

/// Whether a script has a line `loop_forever`.
pub open spec fn script_loops(text: Seq<char>) -> bool {
    let lines = spec_split(text, '\n');
    exists|i: int| 0 <= i < lines.len() && spec_trim(#[trigger] lines[i]) == word_loop_forever()
}

pub open spec fn opt_view(o: Option<Vec<char>>) -> Option<Seq<char>> {
    match o {
        Some(v) => Some(v@),
        None => None,
    }
}

/// The directives of one line of a script.
pub fn parse_line(line: &Vec<char>) -> (r: Vec<Directive>)
    ensures
        r@ == line_directives(line@),
{
    let tokens = split(line, ',');
    let ghost ts = spec_split(line@, ',');
    let mut out: Vec<Directive> = Vec::new();
    let mut region: Option<Vec<char>> = None;
    let mut color: Option<Vec<char>> = None;
    for i in 0..tokens.len()
        invariant
            pieces_view(tokens@) == ts,
            ts == spec_split(line@, ','),
            out@ == immediate(ts.take(i as int)),
            opt_view(region) == last_setting(ts.take(i as int), word_region()),
            opt_view(color) == last_setting(ts.take(i as int), word_color()),
    {
        assert(ts.take(i + 1).drop_last() =~= ts.take(i as int));
        assert(tokens@[i as int]@ == ts[i as int]);
        let t = trim(&tokens[i]);
        let k = find(&t, ':');
        if k < t.len() {
            let key = trim(&copy_range(&t, 0, k));
            let value = trim(&copy_range(&t, k + 1, t.len()));
            if same_chars(&key, &['s', 'l', 'e', 'e', 'p']) {
                let ms = match parse_u64(&value) {
                    Some(n) => n,
                    None => 0,
                };
                out.push(Directive::Sleep(ms));
            } else if same_chars(&key, &['r', 'e', 'g', 'i', 'o', 'n']) {
                region = Some(value);
            } else if same_chars(&key, &['c', 'o', 'l', 'o', 'r']) {
                color = Some(value);
            }
        } else if same_chars(&t, &['r', 'e', 's', 'e', 't']) {
            out.push(Directive::Reset);
        } else if same_chars(&t, &['o', 'f', 'f']) {
            out.push(Directive::Off);
        }
        assert(out@ =~= immediate(ts.take(i + 1)));
    }
    assert(ts.take(tokens.len() as int) =~= ts);
    match (region, color) {
        (Some(r), Some(c)) => {
            let rgb = rgb_chars(&c);
            let data = KeyboardRGBLightData {
                region: region_from_lowercase(&lowercase(&r)),
                color: (rgb[0], rgb[1], rgb[2]),
            };
            let ghost before = out@;
            out.push(Directive::SetColor(data));
            assert(out@ =~= before + seq![color_setting(r@, c@)]);
        },
        _ => {
            assert(out@ =~= out@ + Seq::<Directive>::empty());
        },
    }
    out
}

/// A parsed animation: its directives in order, and whether they repeat
/// forever.
#[derive(Debug, Clone, PartialEq, Eq)]
pub struct Script {
    pub directives: Vec<Directive>,
    pub looping: bool,
}

/// Reads an animation script. Nothing in it is an error: an unknown token
/// does nothing, a `sleep` that is no number waits 0 ms.
pub fn parse_script(text: &String) -> (r: Script)
    ensures
        r.directives@ == script_directives(text@),
        r.looping == script_loops(text@),
{
    let chars = crate::text::chars_of(text.as_str());
    let lines = split(&chars, '\n');
    let ghost ls = spec_split(text@, '\n');
    let mut directives: Vec<Directive> = Vec::new();
    let mut looping = false;
    for i in 0..lines.len()
        invariant
            pieces_view(lines@) == ls,
            ls == spec_split(text@, '\n'),
            directives@ == lines_directives(ls.take(i as int)),
            looping == exists|j: int|
                0 <= j < i && spec_trim(#[trigger] ls[j]) == word_loop_forever(),
    {
        assert(ls.take(i + 1).drop_last() =~= ls.take(i as int));
        assert(lines@[i as int]@ == ls[i as int]);
        let line_directives = parse_line(&lines[i]);
        let ghost before = directives@;
        for j in 0..line_directives.len()
            invariant
                directives@ == before + line_directives@.take(j as int),
        {
            directives.push(line_directives[j]);
            assert(directives@ =~= before + line_directives@.take(j + 1));
        }
        assert(line_directives@.take(line_directives.len() as int) =~= line_directives@);
        assert(directives@ =~= lines_directives(ls.take(i + 1)));
        let t = trim(&lines[i]);
        if same_chars(&t, &['l', 'o', 'o', 'p', '_', 'f', 'o', 'r', 'e', 'v', 'e', 'r']) {
            looping = true;
        }
    }
    assert(ls.take(lines.len() as int) =~= ls);
    Script { directives, looping }
}

/// The directive that a player of `directives` hands out at step `k`: the
/// directives in order, then nothing; or, where they loop, the same
/// directives again and again.
pub open spec fn played(directives: Seq<Directive>, looping: bool, k: nat) -> Option<Directive> {
    if k < directives.len() {
        Some(directives[k as int])
    } else if looping && directives.len() > 0 {
        Some(directives[(k % directives.len()) as int])
    } else {
        None
    }
}

proof fn lemma_mod_step(k: int, n: int)
    requires
        0 <= k,
        0 < n,
    ensures
        (k + 1) % n == if k % n + 1 == n {
            0
        } else {
            k % n + 1
        },
{
    vstd::arithmetic::div_mod::lemma_mod_bound(k, n);
    vstd::arithmetic::div_mod::lemma_add_mod_noop_right(1, k, n);
    if k % n + 1 == n {
        vstd::arithmetic::div_mod::lemma_mod_self_0(n);
    } else {
        vstd::arithmetic::div_mod::lemma_small_mod((k % n + 1) as nat, n as nat);
    }
}

/// Hands out the directives of a script one at a time, in the order in which
/// they are to be carried out.
pub struct Player {
    script: Script,
    position: usize,
    steps: Ghost<nat>,
}

impl Player {
    pub closed spec fn directives(&self) -> Seq<Directive> {
        self.script.directives@
    }

    pub closed spec fn looping(&self) -> bool {
        self.script.looping
    }

    /// How many directives have been asked for so far.
    pub closed spec fn steps(&self) -> nat {
        self.steps@
    }

    pub closed spec fn wf(&self) -> bool {
        let n = self.script.directives@.len();
        if self.script.looping && n > 0 {
            self.position == self.steps@ % n
        } else {
            self.position as nat == if self.steps@ < n {
                self.steps@
            } else {
                n
            }
        }
    }

    pub fn new(script: Script) -> (r: Player)
        ensures
            r.wf(),
            r.directives() == script.directives@,
            r.looping() == script.looping,
            r.steps() == 0,
    {
        Player { script, position: 0, steps: Ghost(0) }
    }

    /// The next directive to carry out; `None` once a script that does not
    /// loop is done.
    pub fn next_directive(&mut self) -> (r: Option<Directive>)
        requires
            old(self).wf(),
        ensures
            final(self).wf(),
            final(self).directives() == old(self).directives(),
            final(self).looping() == old(self).looping(),
            final(self).steps() == old(self).steps() + 1,
            r == played(old(self).directives(), old(self).looping(), old(self).steps()),
    {
        let n = self.script.directives.len();
        let ghost k = self.steps@;
        proof {
            self.steps = Ghost(k + 1);
        }
        if self.position < n {
            let d = self.script.directives[self.position];
            if self.script.looping {
                proof {
                    lemma_mod_step(k as int, n as int);
                    if k < n {
                        vstd::arithmetic::div_mod::lemma_small_mod(k, n as nat);
                    }
                }
                if self.position + 1 == n {
                    self.position = 0;
                } else {
                    self.position = self.position + 1;
                }
            } else {
                self.position = self.position + 1;
            }
            Some(d)
        } else {
            None
        }
    }
}

/// A script with a `loop_forever` line and at least one directive never
/// runs out: at every step a player hands out a directive, and the steps
/// repeat with the script's directives, in order, as one period.
pub proof fn lemma_looping_script_repeats(text: Seq<char>, k: nat)
    requires
        script_loops(text),
        script_directives(text).len() > 0,
    ensures
        played(script_directives(text), script_loops(text), k) is Some,
        played(script_directives(text), script_loops(text), k + script_directives(text).len())
            == played(script_directives(text), script_loops(text), k),
        played(script_directives(text), script_loops(text), k) == Some(
            script_directives(text)[(k % script_directives(text).len()) as int],
        ),
{
    let d = script_directives(text);
    let n = d.len();
    vstd::arithmetic::div_mod::lemma_mod_bound(k as int, n as int);
    vstd::arithmetic::div_mod::lemma_mod_add_multiples_vanish(k as int, n as int);
    if k < n {
        vstd::arithmetic::div_mod::lemma_small_mod(k, n);
    }
}

} // verus!
