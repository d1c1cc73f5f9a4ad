//! The command shell: parsing, dispatch, and the pure text each command
//! produces.
//!
//! A command never touches hardware here.  It returns the lines it wants
//! printed and a list of effects — reboot, serial output, screen clears —
//! for the surrounding runtime to perform; settings, history, clock and
//! memory manager changes happen on the shell state itself.

use vstd::prelude::*;

use crate::display::ConsoleSettings;
use crate::display::CursorBlink;
use crate::display::CursorStyle;
use crate::display::FontKind;
use crate::history::History;
use crate::hud::Hud;
use crate::manager::MemoryManager;
use crate::manager::init_memory;
use crate::scan::find_first;
use crate::scan::lemma_find_first_props;
use crate::scan::lemma_find_first_at;
use crate::textfmt::eq_case_fold;
use crate::textfmt::eq_ignore_ascii_case;
use crate::textfmt::push_char;
use crate::textfmt::spec_trim;
use crate::textfmt::to_lower;
use crate::textfmt::to_lower_string;
use crate::textfmt::trim_str;
use crate::time::Clock;
use crate::time::DateTime;

verus! {

/// The operating system's name.
pub const OS_NAME: &'static str = "StratOS";

/// The build identifier the shell reports.
pub const OS_VERSION: &'static str = "1.A015.28.251130.EXENUS@cfc8a";

/// Longest alias or alias target the table accepts, in characters.
pub const ALIAS_MAX: usize = 32;

/// Most aliases the table holds; later additions are dropped silently.
pub const MAX_ALIASES: usize = 32;

/// Work the runtime performs on the shell's behalf.
#[derive(Debug, PartialEq)]
pub enum Effect {
    ClearScreen,
    Reboot,
    Shutdown,
    Halt,
    ColoredLine(u32, String),
    SerialLine(String),
    ShowFbInfo,
    ShowCpuInfo,
    TriggerFault(String),
}

/// What one input line produced: console lines plus effects, in order.
pub struct ShellOutput {
    pub lines: Vec<String>,
    pub effects: Vec<Effect>,
}

/// The key test the alias table applies.
pub open spec fn alias_key_is(key: Seq<char>) -> spec_fn((Seq<char>, Seq<char>)) -> bool {
    |e: (Seq<char>, Seq<char>)| e.0 == key
}

/// The value test the alias table applies when checking conflicts.
pub open spec fn alias_value_is(v: Seq<char>) -> spec_fn((Seq<char>, Seq<char>)) -> bool {
    |e: (Seq<char>, Seq<char>)| e.1 == v
}

/// Lower-cased alias/command pairs, keys unique.
pub struct AliasTable {
    entries: Vec<(String, String)>,
}

impl AliasTable {
    /// Key/value pairs as character sequences, in table order.
    pub closed spec fn model(&self) -> Seq<(Seq<char>, Seq<char>)> {
        self.entries@.map_values(|e: (String, String)| (e.0@, e.1@))
    }

    pub open spec fn wf(&self) -> bool {
        &&& self.model().len() <= MAX_ALIASES
        &&& forall|i: int, j: int|
            0 <= i < j < self.model().len() ==> (#[trigger] self.model()[i]).0 != (
            #[trigger] self.model()[j]).0
    }

    pub open spec fn has_key(&self, key: Seq<char>) -> bool {
        find_first(self.model(), alias_key_is(key)) is Some
    }

    pub open spec fn has_value(&self, v: Seq<char>) -> bool {
        find_first(self.model(), alias_value_is(v)) is Some
    }

    pub fn new() -> (t: AliasTable)
        ensures
            t.wf(),
            t.model().len() == 0,
    {
        AliasTable { entries: Vec::new() }
    }

    /// Index of the entry whose key is `key`.
    fn find_key(&self, key: &str) -> (r: Option<usize>)
        ensures
            match r {
                Some(j) => find_first(self.model(), alias_key_is(key@)) == Some(j as int) && j
                    < self.model().len(),
                None => find_first(self.model(), alias_key_is(key@)) is None,
            },
    {
        let n = self.entries.len();
        let mut i: usize = 0;
        while i < n
            invariant
                i <= n,
                n == self.entries@.len(),
                forall|k: int| 0 <= k < i ==> !alias_key_is(key@)((#[trigger] self.model()[k])),
            decreases n - i,
        {
            if crate::textfmt::str_eq(self.entries[i].0.as_str(), key) {
                proof {
                    lemma_find_first_at(self.model(), alias_key_is(key@), i as int);
                }
                return Some(i);
            }
            i = i + 1;
        }
        proof {
            lemma_find_first_props(self.model(), alias_key_is(key@));
        }
        None
    }

    /// Whether some entry's target equals `v`.
    fn has_value_exec(&self, v: &str) -> (r: bool)
        ensures
            r == self.has_value(v@),
    {
        let n = self.entries.len();
        let mut i: usize = 0;
        while i < n
            invariant
                i <= n,
                n == self.entries@.len(),
                forall|k: int| 0 <= k < i ==> !alias_value_is(v@)((#[trigger] self.model()[k])),
            decreases n - i,
        {
            if crate::textfmt::str_eq(self.entries[i].1.as_str(), v) {
                proof {
                    lemma_find_first_at(self.model(), alias_value_is(v@), i as int);
                }
                return true;
            }
            i = i + 1;
        }
        proof {
            lemma_find_first_props(self.model(), alias_value_is(v@));
        }
        false
    }

    /// Create an alias, lower-casing both names.  Overlong names, an alias
    /// that already exists (as key or target), and a full table are all
    /// reported or dropped without change; the message tells the user what
    /// happened.
    pub fn add_alias(&mut self, alias: &str, command: &str) -> (msg: String)
        requires
            old(self).wf(),
        ensures
            final(self).wf(),
            ({
                let a = to_lower(alias@);
                let c = to_lower(command@);
                if a.len() > ALIAS_MAX || c.len() > ALIAS_MAX {
                    msg@ == "Alias too long (max 32 chars)."@ && *final(self) == *old(self)
                } else if old(self).has_key(a) || old(self).has_value(a) {
                    msg@ == "Alias already exists or conflicts."@ && *final(self) == *old(self)
                } else {
                    msg@ == "Alias added."@ && final(self).model() == (if old(self).model().len() < MAX_ALIASES {
                        old(self).model().push((a, c))
                    } else {
                        old(self).model()
                    })
                }
            }),
    {
        let alias_lower = to_lower_string(alias);
        let command_lower = to_lower_string(command);
        if alias_lower.as_str().unicode_len() > ALIAS_MAX || command_lower.as_str().unicode_len()
            > ALIAS_MAX {
            let mut m = String::new();
            m.append("Alias too long (max 32 chars).");
            return m;
        }
        if self.find_key(alias_lower.as_str()).is_some() || self.has_value_exec(
            alias_lower.as_str(),
        ) {
            let mut m = String::new();
            m.append("Alias already exists or conflicts.");
            return m;
        }
        if self.entries.len() < MAX_ALIASES {
            let ghost pre = self.model();
            proof {
                lemma_find_first_props(pre, alias_key_is(alias_lower@));
            }
            self.entries.push((alias_lower, command_lower));
            proof {
                assert(self.model() =~= pre.push((alias_lower@, command_lower@)));
                assert forall|i: int, j: int|
                    0 <= i < j < self.model().len() implies (#[trigger] self.model()[i]).0 != (
                #[trigger] self.model()[j]).0 by {
                    if j == pre.len() {
                        assert(self.model()[i] == pre[i]);
                        assert(!alias_key_is(self.model()[j].0)(pre[i]));
                    }
                }
            }
        }
        let mut m = String::new();
        m.append("Alias added.");
        m
    }

    /// Remove an alias by its (lower-cased) name; says whether it existed.
    pub fn remove_alias(&mut self, alias: &str) -> (found: bool)
        requires
            old(self).wf(),
        ensures
            final(self).wf(),
            ({
                let a = to_lower(alias@);
                match find_first(old(self).model(), alias_key_is(a)) {
                    Some(k) => found && final(self).model() == old(self).model().remove(k),
                    None => !found && *final(self) == *old(self),
                }
            }),
    {
        let alias_lower = to_lower_string(alias);
        match self.find_key(alias_lower.as_str()) {
            Some(pos) => {
                let ghost pre = self.model();
                self.entries.remove(pos);
                proof {
                    assert(self.model() =~= pre.remove(pos as int));
                    assert forall|i: int, j: int|
                        0 <= i < j < self.model().len() implies (
                    #[trigger] self.model()[i]).0 != (#[trigger] self.model()[j]).0 by {
                        if i < pos as int {
                            assert(self.model()[i] == pre[i]);
                        } else {
                            assert(self.model()[i] == pre[i + 1]);
                        }
                        if j < pos as int {
                            assert(self.model()[j] == pre[j]);
                        } else {
                            assert(self.model()[j] == pre[j + 1]);
                        }
                    }
                }
                true
            },
            None => false,
        }
    }

    /// The alias lines `aliases` prints: one `  key -> value` per entry.
    pub fn list_aliases(&self) -> (r: Vec<String>)
        requires
            self.wf(),
        ensures
            self.model().len() == 0 ==> r@.len() == 1 && r@[0]@ == "No aliases defined."@,
            self.model().len() > 0 ==> r@.len() == self.model().len() + 1 && r@[0]@
                == "Aliases:"@ && forall|i: int|
                0 <= i < self.model().len() ==> (#[trigger] r@[i + 1])@ == "  "@
                    + self.model()[i].0 + " -> "@ + self.model()[i].1,
    {
        let mut r: Vec<String> = Vec::new();
        if self.entries.is_empty() {
            let mut m = String::new();
            m.append("No aliases defined.");
            r.push(m);
            return r;
        }
        let mut head = String::new();
        head.append("Aliases:");
        r.push(head);
        let n = self.entries.len();
        let mut i: usize = 0;
        while i < n
            invariant
                i <= n,
                n == self.entries@.len(),
                self.wf(),
                r@.len() == i + 1,
                r@[0]@ == "Aliases:"@,
                forall|k: int|
                    0 <= k < i ==> (#[trigger] r@[k + 1])@ == "  "@ + self.model()[k].0 + " -> "@
                        + self.model()[k].1,
            decreases n - i,
        {
            let mut line = String::new();
            line.append("  ");
            line.append(self.entries[i].0.as_str());
            line.append(" -> ");
            line.append(self.entries[i].1.as_str());
            proof {
                assert(line@ =~= "  "@ + self.model()[i as int].0 + " -> "@ + self.model()[
                    i as int].1);
            }
            r.push(line);
            i = i + 1;
        }
        r
    }

    /// The command a word resolves to: its (lower-cased) target when it is
    /// an alias, else the lower-cased word itself.  A word over the length
    /// cap overflows the fixed key buffer and so resolves to nothing.
    pub fn resolve_alias(&self, cmd: &str) -> (r: String)
        requires
            self.wf(),
        ensures
            r@ == spec_resolve(self.model(), cmd@),
    {
        let cmd_lower = to_lower_string(cmd);
        if cmd_lower.as_str().unicode_len() > ALIAS_MAX {
            return String::new();
        }
        match self.find_key(cmd_lower.as_str()) {
            Some(pos) => self.entries[pos].1.clone(),
            None => cmd_lower,
        }
    }
}

/// Value of one hexadecimal digit, or -1.
pub open spec fn hex_val(c: char) -> int {
    if '0' <= c && c <= '9' {
        c as int - '0' as int
    } else if 'a' <= c && c <= 'f' {
        c as int - 'a' as int + 10
    } else if 'A' <= c && c <= 'F' {
        c as int - 'A' as int + 10
    } else {
        -1
    }
}

pub open spec fn all_hex(s: Seq<char>) -> bool {
    forall|i: int| 0 <= i < s.len() ==> hex_val(#[trigger] s[i]) >= 0
}

/// Big-endian value of a hexadecimal digit string.
pub open spec fn hex_value(s: Seq<char>) -> int
    decreases s.len(),
{
    if s.len() == 0 {
        0
    } else {
        hex_value(s.drop_last()) * 16 + hex_val(s.last())
    }
}

pub open spec fn pow16(n: int) -> int
    decreases n,
{
    if n <= 0 {
        1
    } else {
        16 * pow16(n - 1)
    }
}

proof fn lemma_hex_value_bound(s: Seq<char>)
    requires
        all_hex(s),
    ensures
        0 <= hex_value(s) < pow16(s.len() as int),
    decreases s.len(),
{
    if s.len() > 0 {
        assert(all_hex(s.drop_last())) by {
            assert(forall|i: int|
                0 <= i < s.len() - 1 ==> #[trigger] s.drop_last()[i] == s[i]);
        }
        lemma_hex_value_bound(s.drop_last());
    }
}

/// What a 3- or 6-digit RGB hex string parses to.  Three digits double up
/// (`f80` means `ff8800`); a 6-character form may carry the leading `+`
/// that integer parsing tolerates.  Anything else is rejected.
pub open spec fn spec_parse_rgb_hex(s: Seq<char>) -> Option<int> {
    let t = spec_trim(s);
    if t.len() == 3 {
        if all_hex(t) {
            Some(hex_val(t[0]) * 1114112 + hex_val(t[1]) * 4352 + hex_val(t[2]) * 17)
        } else {
            None
        }
    } else if t.len() == 6 {
        if all_hex(t) {
            Some(hex_value(t))
        } else if t[0] == '+' && all_hex(t.skip(1)) {
            Some(hex_value(t.skip(1)))
        } else {
            None
        }
    } else {
        None
    }
}

/// The numeric value of one hex digit character.
fn hex_digit(c: char) -> (r: Option<u8>)
    ensures
        match r {
            Some(v) => hex_val(c) == v && v < 16,
            None => hex_val(c) < 0,
        },
{
    if c >= '0' && c <= '9' {
        Some((c as u8) - 48)
    } else if c >= 'a' && c <= 'f' {
        Some((c as u8) - 97 + 10)
    } else if c >= 'A' && c <= 'F' {
        Some((c as u8) - 65 + 10)
    } else {
        None
    }
}

proof fn lemma_pow10_pos(a: int)
    ensures
        pow10(a) >= 1,
    decreases a,
{
    if a > 0 {
        lemma_pow10_pos(a - 1);
    }
}

proof fn lemma_pow10_le(a: int, b: int)
    requires
        0 <= a <= b,
    ensures
        pow10(a) <= pow10(b),
    decreases b,
{
    lemma_pow10_pos(a);
    if a < b {
        lemma_pow10_le(a, b - 1);
        lemma_pow10_pos(b - 1);
    }
}

proof fn lemma_pow16_pos(a: int)
    ensures
        pow16(a) >= 1,
    decreases a,
{
    if a > 0 {
        lemma_pow16_pos(a - 1);
    }
}

proof fn lemma_pow16_le(a: int, b: int)
    requires
        0 <= a <= b,
    ensures
        pow16(a) <= pow16(b),
    decreases b,
{
    lemma_pow16_pos(a);
    if a < b {
        lemma_pow16_le(a, b - 1);
        lemma_pow16_pos(b - 1);
    }
}

/// Parse a color given as 3 or 6 hex digits (whitespace-trimmed).
pub fn parse_rgb_hex(s: &str) -> (r: Option<u32>)
    ensures
        match r {
            Some(v) => spec_parse_rgb_hex(s@) == Some(v as int),
            None => spec_parse_rgb_hex(s@) is None,
        },
{
    let t = trim_str(s);
    let n = t.as_str().unicode_len();
    let ghost tv = spec_trim(s@);
    if n == 3 {
        let a = match hex_digit(t.as_str().get_char(0)) {
            Some(x) => x,
            None => {
                proof {
                    assert(hex_val(tv[0]) < 0);
                }
                return None;
            },
        };
        let b = match hex_digit(t.as_str().get_char(1)) {
            Some(x) => x,
            None => {
                proof {
                    assert(hex_val(tv[1]) < 0);
                }
                return None;
            },
        };
        let c = match hex_digit(t.as_str().get_char(2)) {
            Some(x) => x,
            None => {
                proof {
                    assert(hex_val(tv[2]) < 0);
                }
                return None;
            },
        };
        Some((a as u32) * 1114112 + (b as u32) * 4352 + (c as u32) * 17)
    } else if n == 6 {
        let start: usize = if t.as_str().get_char(0) == '+' {
            1
        } else {
            0
        };
        proof {
            assert(tv.subrange(start as int, start as int) =~= Seq::<char>::empty());
        }
        let mut acc: u32 = 0;
        let mut i: usize = start;
        while i < 6
            invariant
                start <= i <= 6,
                start <= 1,
                tv == t@,
                tv == spec_trim(s@),
                tv.len() == 6,
                start == 1 ==> tv[0] == '+',
                start == 0 ==> tv[0] != '+',
                acc == hex_value(tv.subrange(start as int, i as int)),
                all_hex(tv.subrange(start as int, i as int)),
                acc < 0x1000000,
            decreases 6 - i,
        {
            let d = match hex_digit(t.as_str().get_char(i)) {
                Some(d) => d,
                None => {
                    proof {
                        assert(hex_val(tv[i as int]) < 0);
                        assert(!all_hex(tv));
                        if tv[0] == '+' {
                            assert(tv.skip(1)[i as int - 1] == tv[i as int]);
                            assert(!all_hex(tv.skip(1)));
                        }
                    }
                    return None;
                },
            };
            proof {
                let pre = tv.subrange(start as int, i as int);
                let post = tv.subrange(start as int, i as int + 1);
                assert(post.drop_last() =~= pre);
                assert(post.last() == tv[i as int]);
                assert(all_hex(post)) by {
                    assert(forall|k: int| 0 <= k < pre.len() ==> #[trigger] post[k] == pre[k]);
                }
                lemma_hex_value_bound(post);
                lemma_pow16_le(post.len() as int, 6);
                reveal_with_fuel(pow16, 8);
            }
            acc = acc * 16 + (d as u32);
            i = i + 1;
        }
        proof {
            if start == 1 {
                assert(tv.skip(1) =~= tv.subrange(1, 6));
                assert(hex_val('+') < 0);
                assert(!all_hex(tv));
            } else {
                assert(tv =~= tv.subrange(0, 6));
            }
        }
        Some(acc)
    } else {
        None
    }
}

/// Decimal value of a digit string.
pub open spec fn dec_value(s: Seq<char>) -> int
    decreases s.len(),
{
    if s.len() == 0 {
        0
    } else {
        dec_value(s.drop_last()) * 10 + (s.last() as int - '0' as int)
    }
}

pub open spec fn is_digit(c: char) -> bool {
    '0' <= c && c <= '9'
}

/// The run of digits a string starts with.
pub open spec fn leading_digits(s: Seq<char>) -> Seq<char>
    decreases s.len(),
{
    if s.len() == 0 || !is_digit(s[0]) {
        Seq::empty()
    } else {
        seq![s[0]] + leading_digits(s.drop_first())
    }
}

/// Bytes-to-bits: the number a string starts with, times eight.  Fails on
/// no digits, more digits than the scratch buffer holds, or overflow.
pub open spec fn spec_bytobi(s: Seq<char>) -> Option<int> {
    let d = leading_digits(s);
    if d.len() == 0 || d.len() > 16 {
        None
    } else {
        let v = dec_value(d);
        if v <= u32::MAX && v * 8 <= u32::MAX {
            Some(v * 8)
        } else {
            None
        }
    }
}

proof fn lemma_leading_digits_take(s: Seq<char>, i: int)
    requires
        0 <= i <= s.len(),
        forall|k: int| 0 <= k < i ==> is_digit(#[trigger] s[k]),
        i < s.len() ==> !is_digit(s[i]),
    ensures
        leading_digits(s) == s.take(i),
    decreases i,
{
    if s.len() == 0 {
        assert(s.take(i) =~= s);
    } else if i == 0 {
        assert(s.take(0) =~= Seq::<char>::empty());
    } else {
        let rest = s.drop_first();
        assert(forall|k: int| 0 <= k < rest.len() ==> #[trigger] rest[k] == s[k + 1]);
        lemma_leading_digits_take(rest, i - 1);
        assert(s.take(i) =~= seq![s[0]] + rest.take(i - 1));
    }
}

pub open spec fn pow10(n: int) -> int
    decreases n,
{
    if n <= 0 {
        1
    } else {
        10 * pow10(n - 1)
    }
}

proof fn lemma_dec_value_bound(s: Seq<char>)
    requires
        forall|k: int| 0 <= k < s.len() ==> is_digit(#[trigger] s[k]),
    ensures
        0 <= dec_value(s) < pow10(s.len() as int),
    decreases s.len(),
{
    if s.len() > 0 {
        assert(forall|k: int|
            0 <= k < s.len() - 1 ==> #[trigger] s.drop_last()[k] == s[k]);
        lemma_dec_value_bound(s.drop_last());
    }
}

/// Length of the run of digits `input` starts with.
fn digit_run(input: &str) -> (i: usize)
    ensures
        i <= input@.len(),
        forall|k: int| 0 <= k < i ==> is_digit(#[trigger] input@[k]),
        i < input@.len() ==> !is_digit(input@[i as int]),
{
    let n = input.unicode_len();
    let mut i: usize = 0;
    while i < n
        invariant
            i <= n,
            n == input@.len(),
            forall|k: int| 0 <= k < i ==> is_digit(#[trigger] input@[k]),
        decreases n - i,
    {
        let c = input.get_char(i);
        if !(c >= '0' && c <= '9') {
            return i;
        }
        i = i + 1;
    }
    i
}

/// Parse the leading decimal number of `input` and convert bytes to bits.
pub fn bytobi(input: &str) -> (r: Option<u32>)
    ensures
        match r {
            Some(v) => spec_bytobi(input@) == Some(v as int),
            None => spec_bytobi(input@) is None,
        },
{
    let run = digit_run(input);
    proof {
        lemma_leading_digits_take(input@, run as int);
    }
    if run == 0 {
        return None;
    }
    if run > 16 {
        return None;
    }
    let mut acc: u64 = 0;
    let mut i: usize = 0;
    while i < run
        invariant
            i <= run <= 16,
            run <= input@.len(),
            forall|k: int| 0 <= k < run ==> is_digit(#[trigger] input@[k]),
            acc == dec_value(input@.take(i as int)),
            acc < 0x2386F26FC10000,
        decreases run - i,
    {
        let c = input.get_char(i);
        let d: u64 = ((c as u8) - 48) as u64;
        proof {
            let pre = input@.take(i as int);
            let post = input@.take(i as int + 1);
            assert(post.drop_last() =~= pre);
            assert(post.last() == input@[i as int]);
            assert(forall|k: int| 0 <= k < post.len() ==> is_digit(#[trigger] post[k]));
            lemma_dec_value_bound(post);
            lemma_pow10_le(post.len() as int, 16);
            reveal_with_fuel(pow10, 18);
            assert(d == input@[i as int] as int - '0' as int);
        }
        acc = acc * 10 + d;
        i = i + 1;
    }
    if acc > 0xFFFFFFFF {
        return None;
    }
    if acc > 0xFFFFFFFF / 8 {
        return None;
    }
    Some((acc as u32) * 8)
}

/// Characters a joined message may hold — the size of the fixed message
/// buffer the console path allows.
pub const MSG_CAP: usize = 128;

/// One step of space-joining words into a capped buffer: the separating
/// space lands only if there is room, a word only if it fits whole.
pub open spec fn join_step(acc: Seq<char>, w: Seq<char>, first: bool) -> Seq<char> {
    let acc1 = if !first && acc.len() < MSG_CAP {
        acc.push(' ')
    } else {
        acc
    };
    if acc1.len() + w.len() <= MSG_CAP {
        acc1 + w
    } else {
        acc1
    }
}

/// `echo`'s message: words joined by spaces into the capped buffer,
/// overlong words silently dropped.
pub open spec fn spec_echo(words: Seq<Seq<char>>) -> Seq<char>
    decreases words.len(),
{
    if words.len() == 0 {
        Seq::empty()
    } else {
        join_step(spec_echo(words.drop_last()), words.last(), words.len() == 1)
    }
}

/// Join words with single spaces into a message of at most `MSG_CAP`
/// characters, dropping what does not fit.
pub fn join_words(words: &Vec<String>, from: usize) -> (r: String)
    requires
        from <= words@.len(),
    ensures
        r@ == spec_echo(lines_model(words@).skip(from as int)),
{
    let ghost ws = lines_model(words@).skip(from as int);
    let n = words.len();
    let mut out = String::new();
    let mut count: usize = 0;
    let mut i: usize = from;
    while i < n
        invariant
            from <= i <= n,
            n == words@.len(),
            count == out@.len(),
            ws == lines_model(words@).skip(from as int),
            out@ == spec_echo(ws.take(i - from)),
        decreases n - i,
    {
        proof {
            assert(ws.take(i - from + 1).drop_last() =~= ws.take(i - from));
            assert(ws.take(i - from + 1).last() == words@[i as int]@);
        }
        if i > from && count < MSG_CAP {
            push_char(&mut out, ' ');
            count = count + 1;
        }
        let wlen = words[i].as_str().unicode_len();
        if wlen <= MSG_CAP && count <= MSG_CAP - wlen {
            out.append(words[i].as_str());
            count = count + wlen;
        }
        i = i + 1;
    }
    proof {
        assert(ws.take(n - from) =~= ws);
    }
    out
}

/// `secho`'s message: as `echo`, but a word that does not fit aborts the
/// whole message instead of being dropped.
pub open spec fn spec_secho(words: Seq<Seq<char>>) -> Option<Seq<char>>
    decreases words.len(),
{
    if words.len() == 0 {
        Some(Seq::empty())
    } else {
        match spec_secho(words.drop_last()) {
            None => None,
            Some(acc) => {
                let acc1 = if words.len() > 1 && acc.len() < MSG_CAP {
                    acc.push(' ')
                } else {
                    acc
                };
                if acc1.len() + words.last().len() <= MSG_CAP {
                    Some(acc1 + words.last())
                } else {
                    None
                }
            },
        }
    }
}

/// Join words for the serial port; `None` when the message would overflow.
pub fn join_words_strict(words: &Vec<String>, from: usize) -> (r: Option<String>)
    requires
        from <= words@.len(),
    ensures
        ({
            let ws = lines_model(words@).skip(from as int);
            match r {
                Some(m) => spec_secho(ws) == Some(m@),
                None => spec_secho(ws) is None,
            }
        }),
{
    let ghost ws = lines_model(words@).skip(from as int);
    let n = words.len();
    let mut out = String::new();
    let mut count: usize = 0;
    let mut i: usize = from;
    while i < n
        invariant
            from <= i <= n,
            n == words@.len(),
            count == out@.len(),
            ws == lines_model(words@).skip(from as int),
            spec_secho(ws.take(i - from)) == Some(out@),
        decreases n - i,
    {
        proof {
            assert(ws.take(i - from + 1).drop_last() =~= ws.take(i - from));
            assert(ws.take(i - from + 1).last() == words@[i as int]@);
        }
        if i > from && count < MSG_CAP {
            push_char(&mut out, ' ');
            count = count + 1;
        }
        let wlen = words[i].as_str().unicode_len();
        if wlen <= MSG_CAP && count <= MSG_CAP - wlen {
            out.append(words[i].as_str());
            count = count + wlen;
        } else {
            proof {
                lemma_secho_stuck(ws, i - from + 1);
            }
            return None;
        }
        i = i + 1;
    }
    proof {
        assert(ws.take(n - from) =~= ws);
    }
    Some(out)
}

/// Views of a list of lines, for contracts.
pub open spec fn lines_model(v: Seq<String>) -> Seq<Seq<char>> {
    v.map_values(|s: String| s@)
}

/// Push one borrowed line onto an output list.
fn push_line(lines: &mut Vec<String>, s: &str)
    ensures
        lines_model(final(lines)@) == lines_model(old(lines)@).push(s@),
{
    let owned: String = s.to_owned();
    lines.push(owned);
    proof {
        assert(lines_model(lines@) =~= lines_model(old(lines)@).push(s@));
    }
}

/// The `version` listing.
pub fn version() -> (r: Vec<String>)
    ensures
        lines_model(r@) =~= seq![OS_NAME@, "Shell "@ + OS_VERSION@, ""@, "Built with Rust."@],
{
    let mut r: Vec<String> = Vec::new();
    push_line(&mut r, OS_NAME);
    let mut shell_line = String::new();
    shell_line.append("Shell ");
    shell_line.append(OS_VERSION);
    proof {
        assert(shell_line@ =~= "Shell "@ + OS_VERSION@);
    }
    let ghost m1 = lines_model(r@);
    let ghost shell_view = shell_line@;
    r.push(shell_line);
    proof {
        assert(lines_model(r@) =~= m1.push(shell_view));
    }
    push_line(&mut r, "");
    push_line(&mut r, "Built with Rust.");
    proof {
        assert(lines_model(r@) =~= seq![OS_NAME@, "Shell "@ + OS_VERSION@, ""@, "Built with Rust."@]);
    }
    r
}

/// The `make` easter egg.
pub fn makel(args: &Vec<String>, at: usize) -> (r: String)
    requires
        at <= args@.len(),
    ensures
        ({
            if args@.len() - at == 1 && args@[at as int]@ == "love"@ {
                r@ == "Not war?"@
            } else {
                r@ == "Unknown command: make"@
            }
        }),
{
    let mut out = String::new();
    if args.len() - at == 1 && crate::textfmt::str_eq(args[at].as_str(), "love") {
        out.append("Not war?");
    } else {
        out.append("Unknown command: make");
    }
    out
}

/// The `validate` command's reply.
pub fn validation(args: &Vec<String>, at: usize) -> (r: String)
    requires
        at <= args@.len(),
    ensures
        ({
            let n = args@.len() - at;
            if n == 0 {
                r@ == "?"@
            } else if args@[at as int]@ == "me"@ {
                if n >= 2 && args@[at as int + 1]@ == "pls"@ {
                    r@ == "You are a very good boy"@
                } else {
                    r@ == "Good boy."@
                }
            } else if args@[at as int]@ == "you"@ {
                r@ == "I am a good OS"@
            } else {
                r@ == "?"@
            }
        }),
{
    let mut out = String::new();
    if args.len() == at {
        out.append("?");
    } else if crate::textfmt::str_eq(args[at].as_str(), "me") {
        if args.len() - at >= 2 && crate::textfmt::str_eq(args[at + 1].as_str(), "pls") {
            out.append("You are a very good boy");
        } else {
            out.append("Good boy.");
        }
    } else if crate::textfmt::str_eq(args[at].as_str(), "you") {
        out.append("I am a good OS");
    } else {
        out.append("?");
    }
    out
}

/// The `os` usage listing.
pub fn os_usage() -> (r: Vec<String>)
    ensures
        lines_model(r@) =~= seq![
            "Usage: os <font|cursor|hud|text|bg> ..."@,
            "  font   default/vga8|terminus|spleen"@,
            "  cursor style underscore|line|block|hidden"@,
            "  cursor blink none|pulse|fade"@,
            "  cursor color <hex>"@,
            "  hud    on|off"@,
            "  text   <hex>  (default text color)"@,
            "  bg     <hex>  (default background, clears screen)"@,
            "  cmdhistory clear|toggle"@,
            "  time   12hr|24hr|sync|help"@,
            "  theme  list | <preset name> (apply or list customization presets)"@,
        ],
{
    let mut r: Vec<String> = Vec::new();
    push_line(&mut r, "Usage: os <font|cursor|hud|text|bg> ...");
    push_line(&mut r, "  font   default/vga8|terminus|spleen");
    push_line(&mut r, "  cursor style underscore|line|block|hidden");
    push_line(&mut r, "  cursor blink none|pulse|fade");
    push_line(&mut r, "  cursor color <hex>");
    push_line(&mut r, "  hud    on|off");
    push_line(&mut r, "  text   <hex>  (default text color)");
    push_line(&mut r, "  bg     <hex>  (default background, clears screen)");
    push_line(&mut r, "  cmdhistory clear|toggle");
    push_line(&mut r, "  time   12hr|24hr|sync|help");
    push_line(&mut r, "  theme  list | <preset name> (apply or list customization presets)");
    proof {
        assert(lines_model(r@) =~= seq![
            "Usage: os <font|cursor|hud|text|bg> ..."@,
            "  font   default/vga8|terminus|spleen"@,
            "  cursor style underscore|line|block|hidden"@,
            "  cursor blink none|pulse|fade"@,
            "  cursor color <hex>"@,
            "  hud    on|off"@,
            "  text   <hex>  (default text color)"@,
            "  bg     <hex>  (default background, clears screen)"@,
            "  cmdhistory clear|toggle"@,
            "  time   12hr|24hr|sync|help"@,
            "  theme  list | <preset name> (apply or list customization presets)"@,
        ]);
    }
    r
}

/// `v` as at least two digits (wider values print in full).
pub open spec fn spec_pad2(v: int) -> Seq<char> {
    if v < 100 {
        crate::textfmt::spec_two_digits(v)
    } else {
        crate::textfmt::spec_digits(v)
    }
}

/// The `uptime` line for a tick count: `Uptime: HH:MM:SS`.
pub open spec fn spec_uptime_chars(ticks: int) -> Seq<char> {
    let secs = ticks / 100;
    let mins = secs / 60;
    let hours = mins / 60;
    "Uptime: "@ + spec_pad2(hours) + ":"@ + crate::textfmt::spec_two_digits(mins % 60) + ":"@
        + crate::textfmt::spec_two_digits(secs % 60)
}

/// Uptime since boot, formatted from the timer tick count.
pub fn uptime_line(ticks: u64) -> (r: String)
    ensures
        r@ == spec_uptime_chars(ticks as int),
{
    let secs = ticks / 100;
    let mins = secs / 60;
    let hours = mins / 60;
    let mut out = String::new();
    out.append("Uptime: ");
    if hours < 100 {
        crate::textfmt::push_2digits(&mut out, hours);
    } else {
        crate::textfmt::push_u64(&mut out, hours);
    }
    push_char(&mut out, ':');
    crate::textfmt::push_2digits(&mut out, mins % 60);
    push_char(&mut out, ':');
    crate::textfmt::push_2digits(&mut out, secs % 60);
    proof {
        reveal_strlit(":");
        assert(out@ =~= spec_uptime_chars(ticks as int));
    }
    out
}

/// Most words one command line yields; extras are dropped.
pub const MAX_WORDS: usize = 16;

/// Most `&&`-separated segments one input line yields; extras are dropped.
pub const MAX_SEGS: usize = 16;

/// Whitespace splitting: close the current word if it is non-empty and
/// there is room for it.
pub open spec fn words_flush(st: (Seq<Seq<char>>, Seq<char>)) -> (Seq<Seq<char>>, Seq<char>) {
    if st.1.len() > 0 && st.0.len() < MAX_WORDS {
        (st.0.push(st.1), Seq::empty())
    } else if st.1.len() > 0 {
        (st.0, Seq::empty())
    } else {
        st
    }
}

pub open spec fn words_step(st: (Seq<Seq<char>>, Seq<char>), c: char) -> (
    Seq<Seq<char>>,
    Seq<char>,
) {
    if crate::textfmt::is_ws(c) {
        words_flush(st)
    } else {
        (st.0, st.1.push(c))
    }
}

pub open spec fn words_run(s: Seq<char>) -> (Seq<Seq<char>>, Seq<char>)
    decreases s.len(),
{
    if s.len() == 0 {
        (Seq::empty(), Seq::empty())
    } else {
        words_step(words_run(s.drop_last()), s.last())
    }
}

/// The whitespace-separated words of a line, at most `MAX_WORDS` of them.
pub open spec fn spec_split_words(s: Seq<char>) -> Seq<Seq<char>> {
    words_flush(words_run(s)).0
}

/// Split a line into whitespace-separated words.
pub fn split_words(input: &str) -> (r: Vec<String>)
    ensures
        lines_model(r@) == spec_split_words(input@),
{
    let n = input.unicode_len();
    let mut words: Vec<String> = Vec::new();
    let mut cur = String::new();
    let mut i: usize = 0;
    while i < n
        invariant
            i <= n,
            n == input@.len(),
            (lines_model(words@), cur@) == words_run(input@.take(i as int)),
        decreases n - i,
    {
        let c = input.get_char(i);
        proof {
            assert(input@.take(i as int + 1).drop_last() =~= input@.take(i as int));
            assert(input@.take(i as int + 1).last() == input@[i as int]);
        }
        if crate::textfmt::is_ws_char(c) {
            if !cur.as_str().is_empty() {
                if words.len() < MAX_WORDS {
                    let ghost m = lines_model(words@);
                    let ghost cv = cur@;
                    words.push(cur);
                    proof {
                        assert(lines_model(words@) =~= m.push(cv));
                    }
                } else {
                }
                cur = String::new();
            }
        } else {
            push_char(&mut cur, c);
        }
        i = i + 1;
    }
    proof {
        assert(input@.take(n as int) =~= input@);
    }
    if !cur.as_str().is_empty() {
        if words.len() < MAX_WORDS {
            let ghost m = lines_model(words@);
            let ghost cv = cur@;
            words.push(cur);
            proof {
                assert(lines_model(words@) =~= m.push(cv));
            }
            return words;
        }
    }
    words
}

/// Append to the current segment, up to its capacity.
pub open spec fn seg_push(cur: Seq<char>, c: char) -> Seq<char> {
    if cur.len() < MSG_CAP {
        cur.push(c)
    } else {
        cur
    }
}

/// Close a segment: trimmed, kept only when non-empty and there is room.
pub open spec fn seg_flush(segs: Seq<Seq<char>>, cur: Seq<char>) -> Seq<Seq<char>> {
    let t = spec_trim(cur);
    if t.len() > 0 && segs.len() < MAX_SEGS {
        segs.push(t)
    } else {
        segs
    }
}

/// Scanner state for `&&` splitting: segments so far, the growing segment,
/// inside single quotes, inside double quotes, after a backslash, and after
/// a lone `&` whose meaning awaits the next character.
pub open spec fn cmd_step(
    st: (Seq<Seq<char>>, Seq<char>, bool, bool, bool, bool),
    c: char,
) -> (Seq<Seq<char>>, Seq<char>, bool, bool, bool, bool) {
    if st.5 {
        if c == '&' {
            (seg_flush(st.0, st.1), Seq::empty(), st.2, st.3, false, false)
        } else {
            cmd_step_plain((st.0, seg_push(st.1, '&'), st.2, st.3, false, false), c)
        }
    } else {
        cmd_step_plain(st, c)
    }
}

pub open spec fn cmd_step_plain(
    st: (Seq<Seq<char>>, Seq<char>, bool, bool, bool, bool),
    c: char,
) -> (Seq<Seq<char>>, Seq<char>, bool, bool, bool, bool) {
    if st.4 {
        (st.0, seg_push(st.1, c), st.2, st.3, false, false)
    } else if c == '\\' {
        (st.0, st.1, st.2, st.3, true, false)
    } else if c == '\'' && !st.3 {
        (st.0, st.1, !st.2, st.3, false, false)
    } else if c == '"' && !st.2 {
        (st.0, st.1, st.2, !st.3, false, false)
    } else if c == '&' && !st.2 && !st.3 {
        (st.0, st.1, st.2, st.3, false, true)
    } else {
        (st.0, seg_push(st.1, c), st.2, st.3, false, false)
    }
}

pub open spec fn cmd_run(s: Seq<char>) -> (Seq<Seq<char>>, Seq<char>, bool, bool, bool, bool)
    decreases s.len(),
{
    if s.len() == 0 {
        (Seq::empty(), Seq::empty(), false, false, false, false)
    } else {
        cmd_step(cmd_run(s.drop_last()), s.last())
    }
}

/// The `&&`-separated command segments of a line, trimmed and non-empty,
/// honouring quotes and backslash escapes.
pub open spec fn spec_split_cmds(s: Seq<char>) -> Seq<Seq<char>> {
    let st = cmd_run(s);
    let cur = if st.5 {
        seg_push(st.1, '&')
    } else {
        st.1
    };
    seg_flush(st.0, cur)
}

/// Split an input line on unquoted `&&` into trimmed command segments.
pub fn split_deuxand(line: &str) -> (r: Vec<String>)
    ensures
        lines_model(r@) == spec_split_cmds(line@),
{
    let n = line.unicode_len();
    let mut segs: Vec<String> = Vec::new();
    let mut cur = String::new();
    let mut cur_chars: usize = 0;
    let mut in_single = false;
    let mut in_double = false;
    let mut escaped = false;
    let mut amp = false;
    let mut i: usize = 0;
    while i < n
        invariant
            i <= n,
            n == line@.len(),
            cur_chars == cur@.len(),
            (lines_model(segs@), cur@, in_single, in_double, escaped, amp) == cmd_run(
                line@.take(i as int),
            ),
        decreases n - i,
    {
        let c = line.get_char(i);
        proof {
            assert(line@.take(i as int + 1).drop_last() =~= line@.take(i as int));
            assert(line@.take(i as int + 1).last() == line@[i as int]);
        }
        if amp {
            if c == '&' {
                let t = trim_str(cur.as_str());
                if !t.as_str().is_empty() && segs.len() < MAX_SEGS {
                    let ghost m = lines_model(segs@);
                    let ghost tval = t@;
                    segs.push(t);
                    proof {
                        assert(lines_model(segs@) =~= m.push(tval));
                    }
                }
                cur = String::new();
                cur_chars = 0;
                amp = false;
                i = i + 1;
                continue ;
            }
            if cur_chars < MSG_CAP {
                push_char(&mut cur, '&');
                cur_chars = cur_chars + 1;
            }
            amp = false;
        }
        if escaped {
            if cur_chars < MSG_CAP {
                push_char(&mut cur, c);
                cur_chars = cur_chars + 1;
            }
            escaped = false;
        } else if c == '\\' {
            escaped = true;
        } else if c == '\'' && !in_double {
            in_single = !in_single;
        } else if c == '"' && !in_single {
            in_double = !in_double;
        } else if c == '&' && !in_single && !in_double {
            amp = true;
        } else {
            if cur_chars < MSG_CAP {
                push_char(&mut cur, c);
                cur_chars = cur_chars + 1;
            }
        }
        i = i + 1;
    }
    proof {
        assert(line@.take(n as int) =~= line@);
    }
    if amp {
        if cur_chars < MSG_CAP {
            push_char(&mut cur, '&');
            cur_chars = cur_chars + 1;
        }
    }
    let t = trim_str(cur.as_str());
    if !t.as_str().is_empty() && segs.len() < MAX_SEGS {
        let ghost m = lines_model(segs@);
        let ghost tval = t@;
        segs.push(t);
        proof {
            assert(lines_model(segs@) =~= m.push(tval));
        }
    }
    segs
}

pub const CURSOR_USAGE: &'static str =
    "Usage: cursor style underscore|line|block|hidden OR cursor blink none|pulse|fade OR cursor color <hex>";

pub const FONT_USAGE: &'static str = "Usage: os font vga8|default|terminus|spleen";

pub const HUD_USAGE: &'static str = "Usage: os hud on|off";

pub const TEXT_USAGE: &'static str = "Usage: os text <hex>";

pub const BG_USAGE: &'static str = "Usage: os bg <hex>";

pub const CMDHIST_USAGE: &'static str = "Usage: os cmdhistory clear|toggle";

pub const TIME_USAGE: &'static str = "Usage: os time 12hr|24hr|sync|help";

/// Upper-case hex digit.
pub open spec fn hex_char_upper(d: int) -> char {
    if d == 0 {
        '0'
    } else if d == 1 {
        '1'
    } else if d == 2 {
        '2'
    } else if d == 3 {
        '3'
    } else if d == 4 {
        '4'
    } else if d == 5 {
        '5'
    } else if d == 6 {
        '6'
    } else if d == 7 {
        '7'
    } else if d == 8 {
        '8'
    } else if d == 9 {
        '9'
    } else if d == 10 {
        'A'
    } else if d == 11 {
        'B'
    } else if d == 12 {
        'C'
    } else if d == 13 {
        'D'
    } else if d == 14 {
        'E'
    } else {
        'F'
    }
}

/// A color as six upper-case hex digits.
pub open spec fn spec_hex6(v: int) -> Seq<char> {
    seq![
        hex_char_upper((v / 0x100000) % 16),
        hex_char_upper((v / 0x10000) % 16),
        hex_char_upper((v / 0x1000) % 16),
        hex_char_upper((v / 0x100) % 16),
        hex_char_upper((v / 0x10) % 16),
        hex_char_upper(v % 16),
    ]
}

fn hex_upper_digit(d: u32) -> (c: char)
    requires
        d < 16,
    ensures
        c == hex_char_upper(d as int),
{
    match d {
        0 => '0',
        1 => '1',
        2 => '2',
        3 => '3',
        4 => '4',
        5 => '5',
        6 => '6',
        7 => '7',
        8 => '8',
        9 => '9',
        10 => 'A',
        11 => 'B',
        12 => 'C',
        13 => 'D',
        14 => 'E',
        _ => 'F',
    }
}

/// Append a color as six upper-case hex digits.
pub fn push_hex6(s: &mut String, v: u32)
    ensures
        final(s)@ == old(s)@ + spec_hex6(v as int),
{
    push_char(s, hex_upper_digit((v / 0x100000) % 16));
    push_char(s, hex_upper_digit((v / 0x10000) % 16));
    push_char(s, hex_upper_digit((v / 0x1000) % 16));
    push_char(s, hex_upper_digit((v / 0x100) % 16));
    push_char(s, hex_upper_digit((v / 0x10) % 16));
    push_char(s, hex_upper_digit(v % 16));
    proof {
        assert(final(s)@ =~= old(s)@ + spec_hex6(v as int));
    }
}

/// The per-command help text, keyed by lower-cased topic.
pub open spec fn spec_help_topic(t: Seq<char>) -> Option<Seq<char>> {
    if t == "help"@ {
        Some("help shows available commands. Usage: help [command]"@)
    } else if t == "about"@ {
        Some("Prints info about StratOS and your hardware."@)
    } else if t == "time"@ {
        Some(
            "Legacy command. Shows the current time; formatting and sync moved to: os time 12hr|24hr|sync"@,
        )
    } else if t == "os"@ {
        Some(
            "Changes system settings (font, cursor, HUD, colors, cmdhistory, time, themes). Usage: os <subcommand> ..."@,
        )
    } else if t == "echo"@ {
        Some("Prints text to the console. Usage: echo <text>"@)
    } else if t == "cecho"@ {
        Some("Prints colored text. Usage: cecho <hex> <text> (hex in RGB, e.g., FF00FF)"@)
    } else if t == "secho"@ {
        Some("Writes text to the serial port. Usage: secho <text>"@)
    } else if t == "clear"@ {
        Some("Clears the screen."@)
    } else if t == "uptime"@ {
        Some("Shows how long the system has been running since boot."@)
    } else if t == "reboot"@ {
        Some("Restarts the device."@)
    } else if t == "shutdown"@ {
        Some("Attempts to turn off the device."@)
    } else if t == "meminfo"@ {
        Some("Shows memory statistics (total, reserved, free)."@)
    } else if t == "memtest"@ {
        Some("Runs the built-in memory test."@)
    } else if t == "cpuinfo"@ {
        Some("Lists CPU vendor/brand/features if available."@)
    } else if t == "fbinfo"@ {
        Some("Shows framebuffer dimensions, bpp, stride, and format."@)
    } else if t == "version"@ {
        Some("Prints StratOS name and build version."@)
    } else if t == "alias"@ {
        Some("Creates an alias. Usage: alias <command> <alias>"@)
    } else if t == "unalias"@ {
        Some("Removes an alias. Usage: unalias <alias>"@)
    } else if t == "aliases"@ {
        Some("Lists all defined aliases."@)
    } else if t == "stratos"@ {
        Some("Displays the StratOS banner."@)
    } else {
        None
    }
}

/// The general help listing.
pub open spec fn spec_help_listing() -> Seq<Seq<char>> {
    seq![
        "\nAvailable commands (type 'help <command>' for details):"@,
        "  help          - Show this help or per-command details"@,
        "  about         - Show StratOS build and system summary"@,
        "  time (legacy) - Show the current time (from RTC)"@,
        "  os ...        - System settings"@,
        "  echo <text>   - Print text"@,
        "  clear         - Clear the screen"@,
        "  uptime        - Show uptime since boot"@,
        "  reboot        - Reboot the machine"@,
        "  shutdown      - Power down the machine"@,
        "  meminfo       - Show memory info"@,
        "  memtest       - Test the memory"@,
        "  cpuinfo       - Show CPU info"@,
        "  fbinfo        - Show framebuffer info"@,
        "  version       - Show OS version"@,
        "  alias         - Create an alias"@,
        "  unalias       - Remove an alias"@,
        "  aliases       - List all aliases\n"@,
    ]
}

/// Help: per-command details for a topic, else the general listing.
pub fn help(args: &Vec<String>, at: usize) -> (r: Vec<String>)
    requires
        at <= args@.len(),
    ensures
        ({
            let m = lines_model(r@);
            if args@.len() > at {
                let t = to_lower(args@[at as int]@);
                match spec_help_topic(t) {
                    Some(msg) => m =~= seq![msg],
                    None => m =~= seq!["Unknown command for help."@],
                }
            } else {
                m =~= spec_help_listing()
            }
        }),
{
    let mut r: Vec<String> = Vec::new();
    if args.len() > at {
        let topic = to_lower_string(args[at].as_str());
        let t = topic.as_str();
        if crate::textfmt::str_eq(t, "help") {
            push_line(&mut r, "help shows available commands. Usage: help [command]");
        } else if crate::textfmt::str_eq(t, "about") {
            push_line(&mut r, "Prints info about StratOS and your hardware.");
        } else if crate::textfmt::str_eq(t, "time") {
            push_line(
                &mut r,
                "Legacy command. Shows the current time; formatting and sync moved to: os time 12hr|24hr|sync",
            );
        } else if crate::textfmt::str_eq(t, "os") {
            push_line(
                &mut r,
                "Changes system settings (font, cursor, HUD, colors, cmdhistory, time, themes). Usage: os <subcommand> ...",
            );
        } else if crate::textfmt::str_eq(t, "echo") {
            push_line(&mut r, "Prints text to the console. Usage: echo <text>");
        } else if crate::textfmt::str_eq(t, "cecho") {
            push_line(
                &mut r,
                "Prints colored text. Usage: cecho <hex> <text> (hex in RGB, e.g., FF00FF)",
            );
        } else if crate::textfmt::str_eq(t, "secho") {
            push_line(&mut r, "Writes text to the serial port. Usage: secho <text>");
        } else if crate::textfmt::str_eq(t, "clear") {
            push_line(&mut r, "Clears the screen.");
        } else if crate::textfmt::str_eq(t, "uptime") {
            push_line(&mut r, "Shows how long the system has been running since boot.");
        } else if crate::textfmt::str_eq(t, "reboot") {
            push_line(&mut r, "Restarts the device.");
        } else if crate::textfmt::str_eq(t, "shutdown") {
            push_line(&mut r, "Attempts to turn off the device.");
        } else if crate::textfmt::str_eq(t, "meminfo") {
            push_line(&mut r, "Shows memory statistics (total, reserved, free).");
        } else if crate::textfmt::str_eq(t, "memtest") {
            push_line(&mut r, "Runs the built-in memory test.");
        } else if crate::textfmt::str_eq(t, "cpuinfo") {
            push_line(&mut r, "Lists CPU vendor/brand/features if available.");
        } else if crate::textfmt::str_eq(t, "fbinfo") {
            push_line(&mut r, "Shows framebuffer dimensions, bpp, stride, and format.");
        } else if crate::textfmt::str_eq(t, "version") {
            push_line(&mut r, "Prints StratOS name and build version.");
        } else if crate::textfmt::str_eq(t, "alias") {
            push_line(&mut r, "Creates an alias. Usage: alias <command> <alias>");
        } else if crate::textfmt::str_eq(t, "unalias") {
            push_line(&mut r, "Removes an alias. Usage: unalias <alias>");
        } else if crate::textfmt::str_eq(t, "aliases") {
            push_line(&mut r, "Lists all defined aliases.");
        } else if crate::textfmt::str_eq(t, "stratos") {
            push_line(&mut r, "Displays the StratOS banner.");
        } else {
            push_line(&mut r, "Unknown command for help.");
        }
        return r;
    }
    push_line(&mut r, "\nAvailable commands (type 'help <command>' for details):");
    push_line(&mut r, "  help          - Show this help or per-command details");
    push_line(&mut r, "  about         - Show StratOS build and system summary");
    push_line(&mut r, "  time (legacy) - Show the current time (from RTC)");
    push_line(&mut r, "  os ...        - System settings");
    push_line(&mut r, "  echo <text>   - Print text");
    push_line(&mut r, "  clear         - Clear the screen");
    push_line(&mut r, "  uptime        - Show uptime since boot");
    push_line(&mut r, "  reboot        - Reboot the machine");
    push_line(&mut r, "  shutdown      - Power down the machine");
    push_line(&mut r, "  meminfo       - Show memory info");
    push_line(&mut r, "  memtest       - Test the memory");
    push_line(&mut r, "  cpuinfo       - Show CPU info");
    push_line(&mut r, "  fbinfo        - Show framebuffer info");
    push_line(&mut r, "  version       - Show OS version");
    push_line(&mut r, "  alias         - Create an alias");
    push_line(&mut r, "  unalias       - Remove an alias");
    push_line(&mut r, "  aliases       - List all aliases\n");
    proof {
        assert(lines_model(r@) =~= spec_help_listing());
    }
    r
}

/// The timestamp the `time` command prints: `YYYY-MM-DD HH:MM:SS`, with an
/// `AM`/`PM` suffix in 12-hour mode.
pub open spec fn spec_stamp_chars(
    y: int,
    m: int,
    d: int,
    h: int,
    mi: int,
    s: int,
    h24: bool,
) -> Seq<char> {
    let date = crate::textfmt::spec_four_digits(y) + "-"@ + crate::textfmt::spec_two_digits(m)
        + "-"@ + crate::textfmt::spec_two_digits(d) + " "@;
    if h24 {
        date + crate::textfmt::spec_two_digits(h) + ":"@ + crate::textfmt::spec_two_digits(mi)
            + ":"@ + crate::textfmt::spec_two_digits(s)
    } else {
        let (dh, pm) = crate::time::spec_hour12(h);
        date + crate::textfmt::spec_two_digits(dh) + ":"@ + crate::textfmt::spec_two_digits(mi)
            + ":"@ + crate::textfmt::spec_two_digits(s) + (if pm {
            " PM"@
        } else {
            " AM"@
        })
    }
}

/// Render one timestamp for the `time` command.
pub fn stamp_chars(y: u64, m: u64, d: u64, h: u64, mi: u64, s: u64, h24: bool) -> (r: String)
    ensures
        r@ == spec_stamp_chars(y as int, m as int, d as int, h as int, mi as int, s as int, h24),
{
    let mut out = String::new();
    crate::textfmt::push_4digits(&mut out, y);
    push_char(&mut out, '-');
    crate::textfmt::push_2digits(&mut out, m);
    push_char(&mut out, '-');
    crate::textfmt::push_2digits(&mut out, d);
    push_char(&mut out, ' ');
    if h24 {
        crate::textfmt::push_2digits(&mut out, h);
        push_char(&mut out, ':');
        crate::textfmt::push_2digits(&mut out, mi);
        push_char(&mut out, ':');
        crate::textfmt::push_2digits(&mut out, s);
    } else {
        let disp_h: u64 = if h == 0 {
            12
        } else if h < 12 {
            h
        } else if h == 12 {
            12
        } else {
            h - 12
        };
        crate::textfmt::push_2digits(&mut out, disp_h);
        push_char(&mut out, ':');
        crate::textfmt::push_2digits(&mut out, mi);
        push_char(&mut out, ':');
        crate::textfmt::push_2digits(&mut out, s);
        if h >= 12 {
            out.append(" PM");
        } else {
            out.append(" AM");
        }
    }
    proof {
        reveal_strlit("-");
        reveal_strlit(" ");
        reveal_strlit(":");
        reveal_strlit(" AM");
        reveal_strlit(" PM");
        assert(out@ =~= spec_stamp_chars(y as int, m as int, d as int, h as int, mi as int,
            s as int, h24));
    }
    out
}

/// The `time` command: display-format switches, an RTC resync, or — by
/// default — the current timestamp.  The caller supplies a fresh RTC
/// reading for the sync path.
pub fn time_cmd(clock: &mut Clock, args: &Vec<String>, at: usize, rtc: DateTime) -> (r: Vec<
    String,
>)
    requires
        old(clock).wf(),
        crate::time::valid_datetime(rtc),
        at <= args@.len(),
    ensures
        final(clock).wf(),
        ({
            let m = lines_model(r@);
            let has = args@.len() > at;
            if has && args@[at as int]@ == "help"@ {
                m =~= seq![
                    "Usage: time [12hr|24hr|sync|help]"@,
                    "  12hr   Set display format to 12-hour mode"@,
                    "  24hr   Set display format to 24-hour mode"@,
                    "  sync   Resync OS time to RTC time if drift detected"@,
                    "  help   Show this message"@,
                ] && *final(clock) == *old(clock)
            } else if has && args@[at as int]@ == "24hr"@ {
                m =~= seq!["Set time format: 24-hour"@] && final(clock).is_24h() && final(clock).base() == old(clock).base() && final(clock).uptime() == old(clock).uptime()
            } else if has && args@[at as int]@ == "12hr"@ {
                m =~= seq!["Set time format: 12-hour"@] && !final(clock).is_24h() && final(clock).base() == old(clock).base() && final(clock).uptime() == old(clock).uptime()
            } else if has && args@[at as int]@ == "sync"@ {
                match old(clock).now_secs() {
                    None => m =~= seq!["Time not initialized yet, initializing..."@] && final(clock).base() == Some(rtc) && final(clock).uptime() == 0,
                    Some(cur) => {
                        let rs = crate::time::datetime_secs(rtc);
                        let drift = if rs > cur {
                            rs - cur
                        } else {
                            cur - rs
                        };
                        if drift > 2 {
                            m =~= seq!["Time re-synced to RTC."@] && final(clock).base() == Some(rtc) && final(clock).uptime() == 0
                        } else {
                            m =~= seq!["Clock is in sync with RTC."@] && *final(clock) == *old(clock)
                        }
                    },
                }
            } else {
                match old(clock).now_secs() {
                    None => m =~= seq!["Time not initialized yet."@] && *final(clock) == *old(clock),
                    Some(_) => m.len() == 1 && *final(clock) == *old(clock),
                }
            }
        }),
{
    proof {
        reveal_strlit("help");
        reveal_strlit("24hr");
        reveal_strlit("12hr");
        reveal_strlit("sync");
    }
    let has_arg = args.len() > at;
    if has_arg && crate::textfmt::str_eq(args[at].as_str(), "help") {
        let mut r: Vec<String> = Vec::new();
        push_line(&mut r, "Usage: time [12hr|24hr|sync|help]");
        push_line(&mut r, "  12hr   Set display format to 12-hour mode");
        push_line(&mut r, "  24hr   Set display format to 24-hour mode");
        push_line(&mut r, "  sync   Resync OS time to RTC time if drift detected");
        push_line(&mut r, "  help   Show this message");
        proof {
            assert(lines_model(r@) =~= seq![
                "Usage: time [12hr|24hr|sync|help]"@,
                "  12hr   Set display format to 12-hour mode"@,
                "  24hr   Set display format to 24-hour mode"@,
                "  sync   Resync OS time to RTC time if drift detected"@,
                "  help   Show this message"@,
            ]);
        }
        return r;
    }
    if has_arg && crate::textfmt::str_eq(args[at].as_str(), "24hr") {
        clock.set_24h(true);
        let mut r: Vec<String> = Vec::new();
        push_line(&mut r, "Set time format: 24-hour");
        proof {
            assert(lines_model(r@) =~= seq!["Set time format: 24-hour"@]);
        }
        return r;
    }
    if has_arg && crate::textfmt::str_eq(args[at].as_str(), "12hr") {
        clock.set_24h(false);
        let mut r: Vec<String> = Vec::new();
        push_line(&mut r, "Set time format: 12-hour");
        proof {
            assert(lines_model(r@) =~= seq!["Set time format: 12-hour"@]);
        }
        return r;
    }
    if has_arg && crate::textfmt::str_eq(args[at].as_str(), "sync") {
        let mut r: Vec<String> = Vec::new();
        match clock.current_time_secs() {
            Some(current_secs) => {
                let rtc_secs = crate::time::ymd_hms_to_secs(
                    rtc.year as u64,
                    rtc.month as u64,
                    rtc.day as u64,
                    rtc.hour as u64,
                    rtc.minute as u64,
                    rtc.second as u64,
                );
                proof {
                    let b = old(clock).base().unwrap();
                    crate::time::lemma_datetime_secs_nonneg(b);
                    let cur_spec = old(clock).now_secs().unwrap();
                    assert(cur_spec >= 0);
                    assert(current_secs as int == cur_spec);
                    assert(rtc_secs as int == crate::time::datetime_secs(rtc));
                }
                let drift = if rtc_secs > current_secs {
                    rtc_secs - current_secs
                } else {
                    current_secs - rtc_secs
                };
                if drift > 2 {
                    clock.init_time(rtc);
                    push_line(&mut r, "Time re-synced to RTC.");
                    proof {
                        assert(lines_model(r@) =~= seq!["Time re-synced to RTC."@]);
                    }
                } else {
                    push_line(&mut r, "Clock is in sync with RTC.");
                    proof {
                        assert(lines_model(r@) =~= seq!["Clock is in sync with RTC."@]);
                    }
                }
            },
            None => {
                push_line(&mut r, "Time not initialized yet, initializing...");
                clock.init_time(rtc);
                proof {
                    assert(lines_model(r@) =~= seq!["Time not initialized yet, initializing..."@]);
                }
            },
        }
        return r;
    }
    // no recognised subcommand: show the current time
    let mut r: Vec<String> = Vec::new();
    match clock.current_time_secs() {
        Some(secs) => {
            let parts = crate::time::secs_to_ymd_hms(secs);
            let line = stamp_chars(
                parts.0,
                parts.1,
                parts.2,
                parts.3,
                parts.4,
                parts.5,
                clock.uses_24h(),
            );
            r.push(line);
        },
        None => {
            push_line(&mut r, "Time not initialized yet.");
        },
    }
    r
}

/// One customization preset the `os theme` command can apply.
pub struct Preset {
    pub name: &'static str,
    pub bg: u32,
    pub fg: u32,
    pub cursor: u32,
    pub font: FontKind,
    pub cursor_style: CursorStyle,
    pub cursor_blink: CursorBlink,
}

/// Apply every knob of a preset to the settings.
pub fn apply_preset(settings: &mut ConsoleSettings, p: &Preset)
    ensures
        final(settings).back_color() == p.bg,
        final(settings).text_color() == p.fg,
        final(settings).cursor() == p.cursor,
        final(settings).font() == p.font,
        final(settings).style() == p.cursor_style,
        final(settings).blink() == p.cursor_blink,
{
    settings.set_default_bg(p.bg);
    settings.set_default_fg(p.fg);
    settings.set_cursor_color(p.cursor);
    settings.set_font(p.font);
    settings.set_cursor_style(p.cursor_style);
    settings.set_cursor_blink(p.cursor_blink);
}

/// `os font ...`: pick a text face.
pub fn handle_font_args(settings: &mut ConsoleSettings, args: &Vec<String>, at: usize) -> (r: Vec<
    String,
>)
    requires
        at <= args@.len(),
    ensures
        ({
            let m = lines_model(r@);
            if args@.len() == at {
                m =~= seq![FONT_USAGE@] && *final(settings) == *old(settings)
            } else {
                let a = args@[at as int]@;
                if eq_case_fold(a, "vga8"@) || eq_case_fold(a, "default"@) {
                    m =~= seq!["Font set to VGA 8x8."@] && final(settings).font()
                        == FontKind::Vga8
                } else if eq_case_fold(a, "terminus"@) {
                    m =~= seq!["Font set to Terminus 8x16."@] && final(settings).font()
                        == FontKind::Terminus8x16
                } else if eq_case_fold(a, "spleen"@) {
                    m =~= seq!["Font set to Spleen 8x16."@] && final(settings).font()
                        == FontKind::Spleen8x16
                } else {
                    m =~= seq![FONT_USAGE@] && *final(settings) == *old(settings)
                }
            }
        }),
{
    let mut r: Vec<String> = Vec::new();
    if args.len() == at {
        push_line(&mut r, FONT_USAGE);
        proof {
            assert(lines_model(r@) =~= seq![FONT_USAGE@]);
        }
        return r;
    }
    let name = args[at].as_str();
    if eq_ignore_ascii_case(name, "vga8") || eq_ignore_ascii_case(name, "default") {
        settings.set_font(FontKind::Vga8);
        push_line(&mut r, "Font set to VGA 8x8.");
        proof {
            assert(lines_model(r@) =~= seq!["Font set to VGA 8x8."@]);
        }
    } else if eq_ignore_ascii_case(name, "terminus") {
        settings.set_font(FontKind::Terminus8x16);
        push_line(&mut r, "Font set to Terminus 8x16.");
        proof {
            assert(lines_model(r@) =~= seq!["Font set to Terminus 8x16."@]);
        }
    } else if eq_ignore_ascii_case(name, "spleen") {
        settings.set_font(FontKind::Spleen8x16);
        push_line(&mut r, "Font set to Spleen 8x16.");
        proof {
            assert(lines_model(r@) =~= seq!["Font set to Spleen 8x16."@]);
        }
    } else {
        push_line(&mut r, FONT_USAGE);
        proof {
            assert(lines_model(r@) =~= seq![FONT_USAGE@]);
        }
    }
    r
}

/// `os hud on|off`.
pub fn handle_hud_args(hud: &mut Hud, args: &Vec<String>, at: usize) -> (r: Vec<String>)
    requires
        at <= args@.len(),
    ensures
        ({
            let m = lines_model(r@);
            if args@.len() > at && eq_case_fold(args@[at as int]@, "on"@) {
                m =~= seq!["Terminal HUD enabled."@] && final(hud).is_enabled()
            } else if args@.len() > at && eq_case_fold(args@[at as int]@, "off"@) {
                m =~= seq!["Terminal HUD disabled."@] && !final(hud).is_enabled()
            } else {
                m =~= seq![HUD_USAGE@] && *final(hud) == *old(hud)
            }
        }),
{
    let mut r: Vec<String> = Vec::new();
    if args.len() > at && eq_ignore_ascii_case(args[at].as_str(), "on") {
        hud.enable();
        push_line(&mut r, "Terminal HUD enabled.");
        proof {
            assert(lines_model(r@) =~= seq!["Terminal HUD enabled."@]);
        }
    } else if args.len() > at && eq_ignore_ascii_case(args[at].as_str(), "off") {
        hud.disable();
        push_line(&mut r, "Terminal HUD disabled.");
        proof {
            assert(lines_model(r@) =~= seq!["Terminal HUD disabled."@]);
        }
    } else {
        push_line(&mut r, HUD_USAGE);
        proof {
            assert(lines_model(r@) =~= seq![HUD_USAGE@]);
        }
    }
    r
}

/// `os cmdhistory clear|toggle`.
pub fn handle_cmdhistory_args(history: &mut History, args: &Vec<String>, at: usize) -> (r: Vec<
    String,
>)
    requires
        at <= args@.len(),
        old(history).wf(),
    ensures
        final(history).wf(),
        ({
            let m = lines_model(r@);
            if args@.len() > at && eq_case_fold(args@[at as int]@, "clear"@) {
                m =~= seq!["Command history cleared."@] && final(history).model().len() == 0
            } else if args@.len() > at && eq_case_fold(args@[at as int]@, "toggle"@) {
                final(history).is_on() == !old(history).is_on() && (if final(history).is_on() {
                    m =~= seq!["Command history enabled."@]
                } else {
                    m =~= seq!["Command history disabled and cleared."@] && final(history).model().len() == 0
                })
            } else {
                m =~= seq![CMDHIST_USAGE@] && *final(history) == *old(history)
            }
        }),
{
    let mut r: Vec<String> = Vec::new();
    if args.len() > at && eq_ignore_ascii_case(args[at].as_str(), "clear") {
        history.clear();
        push_line(&mut r, "Command history cleared.");
        proof {
            assert(lines_model(r@) =~= seq!["Command history cleared."@]);
        }
    } else if args.len() > at && eq_ignore_ascii_case(args[at].as_str(), "toggle") {
        let enabled = history.toggle_enabled();
        if enabled {
            push_line(&mut r, "Command history enabled.");
            proof {
                assert(lines_model(r@) =~= seq!["Command history enabled."@]);
            }
        } else {
            push_line(&mut r, "Command history disabled and cleared.");
            proof {
                assert(lines_model(r@) =~= seq!["Command history disabled and cleared."@]);
            }
        }
    } else {
        push_line(&mut r, CMDHIST_USAGE);
        proof {
            assert(lines_model(r@) =~= seq![CMDHIST_USAGE@]);
        }
    }
    r
}

/// `os cursor style|blink|color ...`.
pub fn handle_cursor_args(settings: &mut ConsoleSettings, args: &Vec<String>, at: usize) -> (r:
    Vec<String>)
    requires
        at <= args@.len(),
    ensures
        ({
            let m = lines_model(r@);
            if args@.len() - at < 2 {
                m =~= seq![CURSOR_USAGE@] && *final(settings) == *old(settings)
            } else {
                let mode = args@[at as int]@;
                let value = args@[at as int + 1]@;
                if eq_case_fold(mode, "style"@) {
                    if eq_case_fold(value, "underscore"@) {
                        m =~= Seq::<Seq<char>>::empty() && final(settings).style()
                            == CursorStyle::Underscore
                    } else if eq_case_fold(value, "line"@) {
                        m =~= Seq::<Seq<char>>::empty() && final(settings).style()
                            == CursorStyle::Line
                    } else if eq_case_fold(value, "block"@) {
                        m =~= Seq::<Seq<char>>::empty() && final(settings).style()
                            == CursorStyle::Block
                    } else if eq_case_fold(value, "hidden"@) {
                        m =~= Seq::<Seq<char>>::empty() && final(settings).style()
                            == CursorStyle::Hidden
                    } else {
                        m =~= seq![CURSOR_USAGE@] && *final(settings) == *old(settings)
                    }
                } else if eq_case_fold(mode, "blink"@) {
                    if eq_case_fold(value, "none"@) {
                        m =~= Seq::<Seq<char>>::empty() && final(settings).blink()
                            == CursorBlink::Off
                    } else if eq_case_fold(value, "pulse"@) {
                        m =~= Seq::<Seq<char>>::empty() && final(settings).blink()
                            == CursorBlink::Pulse
                    } else if eq_case_fold(value, "fade"@) {
                        m =~= Seq::<Seq<char>>::empty() && final(settings).blink()
                            == CursorBlink::Fade
                    } else {
                        m =~= seq![CURSOR_USAGE@] && *final(settings) == *old(settings)
                    }
                } else if eq_case_fold(mode, "color"@) {
                    match spec_parse_rgb_hex(value) {
                        Some(v) => if v <= 0xFFFFFF {
                            m =~= seq!["Cursor color set to #"@ + spec_hex6(v) + "."@] && final(settings).cursor() == v
                        } else {
                            m =~= seq![
                                "cursor color: invalid hex. Use 3 or 6 hex digits, e.g., FF00FF"@,
                            ] && *final(settings) == *old(settings)
                        },
                        None => m =~= seq![
                            "cursor color: invalid hex. Use 3 or 6 hex digits, e.g., FF00FF"@,
                        ] && *final(settings) == *old(settings),
                    }
                } else {
                    m =~= seq![CURSOR_USAGE@] && *final(settings) == *old(settings)
                }
            }
        }),
{
    let mut r: Vec<String> = Vec::new();
    if args.len() - at < 2 {
        push_line(&mut r, CURSOR_USAGE);
        proof {
            assert(lines_model(r@) =~= seq![CURSOR_USAGE@]);
        }
        return r;
    }
    let mode = args[at].as_str();
    let value = args[at + 1].as_str();
    if eq_ignore_ascii_case(mode, "style") {
        if eq_ignore_ascii_case(value, "underscore") {
            settings.set_cursor_style(CursorStyle::Underscore);
        } else if eq_ignore_ascii_case(value, "line") {
            settings.set_cursor_style(CursorStyle::Line);
        } else if eq_ignore_ascii_case(value, "block") {
            settings.set_cursor_style(CursorStyle::Block);
        } else if eq_ignore_ascii_case(value, "hidden") {
            settings.set_cursor_style(CursorStyle::Hidden);
        } else {
            push_line(&mut r, CURSOR_USAGE);
            proof {
                assert(lines_model(r@) =~= seq![CURSOR_USAGE@]);
            }
        }
    } else if eq_ignore_ascii_case(mode, "blink") {
        if eq_ignore_ascii_case(value, "none") {
            settings.set_cursor_blink(CursorBlink::Off);
        } else if eq_ignore_ascii_case(value, "pulse") {
            settings.set_cursor_blink(CursorBlink::Pulse);
        } else if eq_ignore_ascii_case(value, "fade") {
            settings.set_cursor_blink(CursorBlink::Fade);
        } else {
            push_line(&mut r, CURSOR_USAGE);
            proof {
                assert(lines_model(r@) =~= seq![CURSOR_USAGE@]);
            }
        }
    } else if eq_ignore_ascii_case(mode, "color") {
        let parsed = parse_rgb_hex(value);
        let ok: bool = match parsed {
            Some(v) => v <= 0xFFFFFF,
            None => false,
        };
        if ok {
            let v = match parsed {
                Some(v) => v,
                None => 0,
            };
            settings.set_cursor_color(v);
            let mut line = String::new();
            line.append("Cursor color set to #");
            push_hex6(&mut line, v);
            line.append(".");
            let ghost lv = line@;
            r.push(line);
            proof {
                assert(lv =~= "Cursor color set to #"@ + spec_hex6(v as int) + "."@);
                assert(lines_model(r@) =~= seq![
                    "Cursor color set to #"@ + spec_hex6(v as int) + "."@,
                ]);
            }
        } else {
            push_line(&mut r, "cursor color: invalid hex. Use 3 or 6 hex digits, e.g., FF00FF");
            proof {
                assert(lines_model(r@) =~= seq![
                    "cursor color: invalid hex. Use 3 or 6 hex digits, e.g., FF00FF"@,
                ]);
            }
        }
    } else {
        push_line(&mut r, CURSOR_USAGE);
        proof {
            assert(lines_model(r@) =~= seq![CURSOR_USAGE@]);
        }
    }
    r
}

/// The memory listing: one block each for system, kernel heap and arena,
/// then one block per registered application, in slot order.
pub fn meminfo(mem: &MemoryManager) -> (r: Vec<String>)
    requires
        mem.wf(),
    ensures
        lines_model(r@).len() >= 16,
        lines_model(r@)[0] == "System memory:"@,
        lines_model(r@)[1] == "  Total: "@ + crate::textfmt::spec_format_bytes(mem.total_ram as int),
        lines_model(r@)[2] == "  Reserved: "@ + crate::textfmt::spec_format_bytes(
            crate::heap::HEAP_SIZE as int,
        ),
        lines_model(r@)[5] == "Kernel heap:"@,
        lines_model(r@)[6] == "  Total: "@ + crate::textfmt::spec_format_bytes(
            crate::heap::HEAP_SIZE as int,
        ),
        lines_model(r@)[7] == "  Used: "@ + crate::textfmt::spec_format_bytes(mem.kernel.used()),
        lines_model(r@)[8] == "  Free: "@ + crate::textfmt::spec_format_bytes(mem.kernel.free()),
        lines_model(r@)[13] == "User arena:"@,
        lines_model(r@)[14] == "  Total: "@ + crate::textfmt::spec_format_bytes(
            mem.arena.arena_size(),
        ),
        lines_model(r@)[15] == "  Free for new regions: "@ + crate::textfmt::spec_format_bytes(
            mem.arena.free_for_new(),
        ),
{
    let mo = mem.memory_overview(None);
    let mut r: Vec<String> = Vec::new();
    push_line(&mut r, "System memory:");
    push_labeled_bytes(&mut r, "  Total: ", mo.system.total);
    push_labeled_bytes(&mut r, "  Reserved: ", mo.system.reserved);
    push_labeled_bytes(&mut r, "  Free: ", mo.system.free);
    push_line(&mut r, "");
    push_line(&mut r, "Kernel heap:");
    push_labeled_bytes(&mut r, "  Total: ", mo.kernel_heap.total);
    push_labeled_bytes(&mut r, "  Used: ", mo.kernel_heap.used);
    push_labeled_bytes(&mut r, "  Free: ", mo.kernel_heap.free);
    push_labeled_bytes(&mut r, "  Peak: ", mo.kernel_heap.peak_used);
    push_labeled_count(&mut r, "  Allocs: ", mo.kernel_heap.alloc_count);
    push_labeled_count(&mut r, "  Deallocs: ", mo.kernel_heap.dealloc_count);
    push_line(&mut r, "");
    push_line(&mut r, "User arena:");
    push_labeled_bytes(&mut r, "  Total: ", mo.user_arena_total);
    push_labeled_bytes(&mut r, "  Free for new regions: ", mo.user_arena_free_for_new_regions);
    let n = mo.apps.len();
    let mut i: usize = 0;
    while i < n
        invariant
            i <= n,
            n == mo.apps@.len(),
            lines_model(r@).len() >= 16,
            lines_model(r@)[0] == "System memory:"@,
            lines_model(r@)[1] == "  Total: "@ + crate::textfmt::spec_format_bytes(
                mo.system.total as int,
            ),
            lines_model(r@)[2] == "  Reserved: "@ + crate::textfmt::spec_format_bytes(
                mo.system.reserved as int,
            ),
            lines_model(r@)[5] == "Kernel heap:"@,
            lines_model(r@)[6] == "  Total: "@ + crate::textfmt::spec_format_bytes(
                mo.kernel_heap.total as int,
            ),
            lines_model(r@)[7] == "  Used: "@ + crate::textfmt::spec_format_bytes(
                mo.kernel_heap.used as int,
            ),
            lines_model(r@)[8] == "  Free: "@ + crate::textfmt::spec_format_bytes(
                mo.kernel_heap.free as int,
            ),
            lines_model(r@)[13] == "User arena:"@,
            lines_model(r@)[14] == "  Total: "@ + crate::textfmt::spec_format_bytes(
                mo.user_arena_total as int,
            ),
            lines_model(r@)[15] == "  Free for new regions: "@
                + crate::textfmt::spec_format_bytes(mo.user_arena_free_for_new_regions as int),
        decreases n - i,
    {
        match &mo.apps[i] {
            Some(entry) => {
                push_line(&mut r, "");
                let mut head = String::new();
                head.append("App ");
                crate::textfmt::push_u64(&mut head, entry.0 as u64);
                head.append(":");
                let ghost mprev = lines_model(r@);
                let ghost hv = head@;
                r.push(head);
                proof {
                    assert(lines_model(r@) =~= mprev.push(hv));
                }
                push_labeled_bytes(&mut r, "  Total: ", entry.1.total);
                push_labeled_bytes(&mut r, "  Used: ", entry.1.used);
                push_labeled_bytes(&mut r, "  Free: ", entry.1.free);
                push_labeled_bytes(&mut r, "  Peak: ", entry.1.peak_used);
                push_labeled_count(&mut r, "  Allocs: ", entry.1.alloc_count);
                push_labeled_count(&mut r, "  Deallocs: ", entry.1.dealloc_count);
            },
            None => {},
        }
        i = i + 1;
    }
    r
}

/// Push `label` followed by a human-readable byte count.
fn push_labeled_bytes(lines: &mut Vec<String>, label: &str, v: usize)
    ensures
        lines_model(final(lines)@) == lines_model(old(lines)@).push(
            label@ + crate::textfmt::spec_format_bytes(v as int),
        ),
{
    let mut line: String = label.to_owned();
    let formatted = crate::textfmt::format_bytes(v as u64);
    line.append(formatted.as_str());
    let ghost lv = line@;
    lines.push(line);
    proof {
        assert(lines_model(lines@) =~= lines_model(old(lines)@).push(lv));
    }
}

/// Push `label` followed by a plain decimal count.
fn push_labeled_count(lines: &mut Vec<String>, label: &str, v: usize)
    ensures
        lines_model(final(lines)@) == lines_model(old(lines)@).push(
            label@ + crate::textfmt::spec_digits(v as int),
        ),
{
    let mut line: String = label.to_owned();
    crate::textfmt::push_u64(&mut line, v as u64);
    let ghost lv = line@;
    lines.push(line);
    proof {
        assert(lines_model(lines@) =~= lines_model(old(lines)@).push(lv));
    }
}

/// The complete shell state: console knobs, HUD, history, clock, aliases
/// and the memory manager the diagnostics commands act on.
pub struct Shell {
    pub settings: ConsoleSettings,
    pub hud: Hud,
    pub history: History,
    pub clock: Clock,
    pub aliases: AliasTable,
    pub mem: MemoryManager,
}

impl Shell {
    pub open spec fn wf(&self) -> bool {
        &&& self.history.wf()
        &&& self.clock.wf()
        &&& self.aliases.wf()
        &&& self.mem.wf()
    }

    /// A fresh shell over a newly initialized memory manager.
    pub fn new(total_usable_bytes: usize) -> (s: Shell)
        ensures
            s.wf(),
            s.mem.total_ram == total_usable_bytes,
    {
        Shell {
            settings: ConsoleSettings::new(),
            hud: Hud::init(),
            history: History::new(),
            clock: Clock::new(),
            aliases: AliasTable::new(),
            mem: init_memory(total_usable_bytes),
        }
    }

    /// The built-in memory self-test: a kernel alloc/dealloc round trip and
    /// one full application lifecycle, reported line by line.
    pub fn mem_selftest(&mut self) -> (r: Vec<String>)
        requires
            old(self).wf(),
        ensures
            final(self).wf(),
            lines_model(r@).len() >= 2,
            lines_model(r@)[0] == "=== Memory self-test starting ==="@,
            lines_model(r@).last() == "=== Memory self-test complete ==="@,
    {
        proof {
            reveal_with_fuel(crate::freelist::spec_pow2, 5);
            assert(crate::freelist::spec_pow2(8));
        }
        let mut r: Vec<String> = Vec::new();
        push_line(&mut r, "=== Memory self-test starting ===");
        match self.mem.kernel.kalloc(128, 8) {
            Some(p) => {
                push_line(&mut r, "Kernel alloc: success (128 B)");
                self.mem.kernel.kdealloc(p, 128, 8);
                push_line(&mut r, "Kernel dealloc: success");
            },
            None => {
                push_line(&mut r, "Kernel alloc FAILED");
            },
        }
        if self.mem.arena.register_app(42, 64 * 1024) {
            match self.mem.arena.app_alloc(42, 4096, 8) {
                Some(ptr) => {
                    push_line(&mut r, "App alloc: success (4 KiB)");
                    self.mem.arena.app_dealloc(42, ptr, 4096, 8);
                    push_line(&mut r, "App dealloc: success");
                },
                None => {
                    push_line(&mut r, "App alloc FAILED");
                },
            }
            match self.mem.arena.app_stats(42) {
                Some(stats) => {
                    let mut line = String::new();
                    line.append("App 42 stats: total=");
                    crate::textfmt::push_u64(&mut line, stats.total as u64);
                    line.append(" used=");
                    crate::textfmt::push_u64(&mut line, stats.used as u64);
                    line.append(" free=");
                    crate::textfmt::push_u64(&mut line, stats.free as u64);
                    line.append(" allocs=");
                    crate::textfmt::push_u64(&mut line, stats.alloc_count as u64);
                    line.append(" deallocs=");
                    crate::textfmt::push_u64(&mut line, stats.dealloc_count as u64);
                    let ghost mprev = lines_model(r@);
                    let ghost lv = line@;
                    r.push(line);
                    proof {
                        assert(lines_model(r@) =~= mprev.push(lv));
                    }
                },
                None => {},
            }
            self.mem.arena.unregister_app(42);
        } else {
            push_line(&mut r, "App register FAILED");
        }
        push_line(&mut r, "=== Memory self-test complete ===");
        r
    }

    /// `os <subcommand> ...`: system settings.
    pub fn os_command(&mut self, args: &Vec<String>, at: usize, rtc: DateTime) -> (r: Vec<String>)
        requires
            old(self).wf(),
            crate::time::valid_datetime(rtc),
            at <= args@.len(),
        ensures
            final(self).wf(),
            final(self).mem == old(self).mem,
            args@.len() == at ==> lines_model(r@) =~= spec_help_os() && *final(self) == *old(self),
    {
        if args.len() == at {
            return os_usage();
        }
        let sub = to_lower_string(args[at].as_str());
        let s = sub.as_str();
        if crate::textfmt::str_eq(s, "font") {
            handle_font_args(&mut self.settings, args, at + 1)
        } else if crate::textfmt::str_eq(s, "cursor") {
            handle_cursor_args(&mut self.settings, args, at + 1)
        } else if crate::textfmt::str_eq(s, "hud") {
            handle_hud_args(&mut self.hud, args, at + 1)
        } else if crate::textfmt::str_eq(s, "theme") || crate::textfmt::str_eq(
            s,
            "customization",
        ) {
            // no presets are compiled into this build, so only the usage
            // and the empty listing are reachable
            let mut r: Vec<String> = Vec::new();
            if args.len() > at + 1 && eq_ignore_ascii_case(args[at + 1].as_str(), "list") {
                push_line(&mut r, "Available presets:");
            } else {
                push_line(&mut r, "Preset not found. Use: os theme list");
            }
            r
        } else if crate::textfmt::str_eq(s, "cmdhistory") {
            handle_cmdhistory_args(&mut self.history, args, at + 1)
        } else if crate::textfmt::str_eq(s, "time") {
            self.handle_time_args(args, at + 1, rtc)
        } else if crate::textfmt::str_eq(s, "text") {
            let mut r: Vec<String> = Vec::new();
            if args.len() > at + 1 {
                let parsed = parse_rgb_hex(args[at + 1].as_str());
                let ok: bool = match parsed {
                    Some(v) => v <= 0xFFFFFF,
                    None => false,
                };
                if ok {
                    let v = match parsed {
                        Some(v) => v,
                        None => 0,
                    };
                    self.settings.set_default_fg(v);
                    let mut line = String::new();
                    line.append("Default text color set to #");
                    push_hex6(&mut line, v);
                    line.append(".");
                    r.push(line);
                } else {
                    push_line(&mut r, "os text: invalid hex. Use 3 or 6 hex digits, e.g., FF0000");
                }
            } else {
                push_line(&mut r, TEXT_USAGE);
            }
            r
        } else if crate::textfmt::str_eq(s, "bg") {
            let mut r: Vec<String> = Vec::new();
            if args.len() > at + 1 {
                let parsed = parse_rgb_hex(args[at + 1].as_str());
                let ok: bool = match parsed {
                    Some(v) => v <= 0xFFFFFF,
                    None => false,
                };
                if ok {
                    let v = match parsed {
                        Some(v) => v,
                        None => 0,
                    };
                    let prev = self.settings.default_bg();
                    self.settings.set_default_bg(v);
                    let mut line = String::new();
                    if v != prev {
                        line.append("Default background set to #");
                        push_hex6(&mut line, v);
                        line.append(". Screen cleared.");
                    } else {
                        line.append("Default background remains #");
                        push_hex6(&mut line, v);
                        line.append(".");
                    }
                    r.push(line);
                } else {
                    push_line(&mut r, "os bg: invalid hex. Use 3 or 6 hex digits, e.g., 000000");
                }
            } else {
                push_line(&mut r, BG_USAGE);
            }
            r
        } else {
            os_usage()
        }
    }

    /// `os time ...`: validate the subcommand, then hand over to the clock.
    fn handle_time_args(&mut self, args: &Vec<String>, at: usize, rtc: DateTime) -> (r: Vec<
        String,
    >)
        requires
            old(self).wf(),
            crate::time::valid_datetime(rtc),
            at <= args@.len(),
        ensures
            final(self).wf(),
            final(self).mem == old(self).mem,
    {
        if args.len() == at {
            return time_cmd(&mut self.clock, args, at, rtc);
        }
        let sub = args[at].as_str();
        if eq_ignore_ascii_case(sub, "12hr") || eq_ignore_ascii_case(sub, "24hr")
            || eq_ignore_ascii_case(sub, "sync") || eq_ignore_ascii_case(sub, "help") {
            time_cmd(&mut self.clock, args, at, rtc)
        } else {
            let mut r: Vec<String> = Vec::new();
            push_line(&mut r, TIME_USAGE);
            r
        }
    }
}

/// What a word resolves to before dispatch: its alias target, or itself
/// lower-cased; an overlong word resolves to nothing.
pub open spec fn spec_resolve(m: Seq<(Seq<char>, Seq<char>)>, w: Seq<char>) -> Seq<char> {
    let key = to_lower(w);
    if key.len() > ALIAS_MAX {
        Seq::empty()
    } else {
        match find_first(m, alias_key_is(key)) {
            Some(k) => m[k].1,
            None => key,
        }
    }
}

impl Shell {
    /// Dispatch one already-split command: resolve the leading word through
    /// the alias table and run the command it names.  Unknown words are
    /// reported, hardware actions come back as effects.
    pub fn handle_command(&mut self, input: &str, now_ticks: u64, rtc: DateTime) -> (r:
        ShellOutput)
        requires
            old(self).wf(),
            crate::time::valid_datetime(rtc),
        ensures
            final(self).wf(),
            ({
                let ws = spec_split_words(input@);
                let lm = lines_model(r.lines@);
                if ws.len() == 0 {
                    lm =~= Seq::<Seq<char>>::empty() && r.effects@.len() == 0 && *final(self)
                        == *old(self)
                } else {
                    let cmd = spec_resolve(old(self).aliases.model(), ws[0]);
                    if cmd == "echo"@ {
                        lm =~= seq![spec_echo(ws.skip(1))] && r.effects@.len() == 0 && *final(self) == *old(self)
                    } else if cmd == "version"@ {
                        lm =~= seq![OS_NAME@, "Shell "@ + OS_VERSION@, ""@, "Built with Rust."@]
                            && r.effects@.len() == 0 && *final(self) == *old(self)
                    } else if cmd == "clear"@ || cmd == "cls"@ {
                        lm =~= Seq::<Seq<char>>::empty() && r.effects@ =~= seq![
                            Effect::ClearScreen,
                        ] && *final(self) == *old(self)
                    } else if cmd == "uptime"@ {
                        lm =~= seq![spec_uptime_chars(now_ticks as int)] && r.effects@.len() == 0
                            && *final(self) == *old(self)
                    } else {
                        true
                    }
                }
            }),
    {
        let parts = split_words(input);
        let effects: Vec<Effect> = Vec::new();
        if parts.len() == 0 {
            let lines: Vec<String> = Vec::new();
            return ShellOutput { lines, effects };
        }
        let command = self.aliases.resolve_alias(parts[0].as_str());
        proof {
            let ws = spec_split_words(input@);
            assert(lines_model(parts@)[0] == parts@[0]@);
            assert(command@ == spec_resolve(old(self).aliases.model(), ws[0]));
        }
        let c = command.as_str();
        if crate::textfmt::str_eq(c, "echo") {
            let msg = join_words(&parts, 1);
            let mut lines: Vec<String> = Vec::new();
            let ghost mv = msg@;
            lines.push(msg);
            proof {
                let ws = spec_split_words(input@);
                assert(lines_model(parts@).skip(1) =~= ws.skip(1));
                assert(lines_model(lines@) =~= seq![mv]);
            }
            ShellOutput { lines, effects }
        } else if crate::textfmt::str_eq(c, "version") {
            ShellOutput { lines: version(), effects }
        } else if crate::textfmt::str_eq(c, "clear") || crate::textfmt::str_eq(c, "cls") {
            let mut effects: Vec<Effect> = Vec::new();
            effects.push(Effect::ClearScreen);
            let lines: Vec<String> = Vec::new();
            ShellOutput { lines, effects }
        } else if crate::textfmt::str_eq(c, "uptime") {
            let mut lines: Vec<String> = Vec::new();
            let uline = uptime_line(now_ticks);
            let ghost uv = uline@;
            lines.push(uline);
            proof {
                assert(lines_model(lines@) =~= seq![uv]);
            }
            ShellOutput { lines, effects }
        } else if crate::textfmt::str_eq(c, "cecho") {
            let mut lines: Vec<String> = Vec::new();
            let mut effects: Vec<Effect> = Vec::new();
            if parts.len() < 3 {
                push_line(&mut lines, "Usage: cecho <hex> <text>");
            } else {
                let parsed = parse_rgb_hex(parts[1].as_str());
                let ok: bool = match parsed {
                    Some(v) => v <= 0xFFFFFF,
                    None => false,
                };
                if ok {
                    let fg = match parsed {
                        Some(v) => v,
                        None => 0,
                    };
                    let msg = join_words(&parts, 2);
                    effects.push(Effect::ColoredLine(fg, msg));
                } else {
                    push_line(&mut lines, "cecho: invalid hex. Use 3 or 6 hex digits, e.g., FF0000");
                }
            }
            ShellOutput { lines, effects }
        } else if crate::textfmt::str_eq(c, "secho") {
            let mut effects: Vec<Effect> = Vec::new();
            match join_words_strict(&parts, 1) {
                Some(msg) => {
                    effects.push(Effect::SerialLine(msg));
                },
                None => {
                    let mut err = String::new();
                    err.append("Error: message too long");
                    effects.push(Effect::SerialLine(err));
                },
            }
            let lines: Vec<String> = Vec::new();
            ShellOutput { lines, effects }
        } else if crate::textfmt::str_eq(c, "about") {
            let mut lines: Vec<String> = Vec::new();
            let mut effects: Vec<Effect> = Vec::new();
            push_line(&mut lines, "StratOS Project Rejuvenescence");
            let mut vline = String::new();
            vline.append("Version: ");
            vline.append(OS_VERSION);
            lines.push(vline);
            push_line(&mut lines, "Built with Rust.");
            push_line(&mut lines, "");
            push_line(&mut lines, "System:");
            effects.push(Effect::ShowCpuInfo);
            let stats = self.mem.system_stats();
            let mut mline = String::new();
            mline.append("  Memory: total ");
            crate::textfmt::push_u64(&mut mline, (stats.total / 1024) as u64);
            mline.append(" KB, reserved ");
            crate::textfmt::push_u64(&mut mline, (stats.reserved / 1024) as u64);
            mline.append(" KB, free ");
            crate::textfmt::push_u64(&mut mline, (stats.free / 1024) as u64);
            mline.append(" KB");
            lines.push(mline);
            push_line(&mut lines, "");
            push_line(&mut lines, "Time:");
            let empty_args: Vec<String> = Vec::new();
            let mut tlines = time_cmd(&mut self.clock, &empty_args, 0, rtc);
            lines.append(&mut tlines);
            let uline = uptime_line(now_ticks);
            lines.push(uline);
            ShellOutput { lines, effects }
        } else if crate::textfmt::str_eq(c, "stratos") {
            let mut lines: Vec<String> = Vec::new();
            let mut effects: Vec<Effect> = Vec::new();
            effects.push(banner_row(0xffeeff, " _______  _______  ______    _______  _______  _______  _______ "));
            effects.push(banner_row(0xffddff, "|       ||       ||    _ |  |   _   ||       ||       ||       |"));
            effects.push(banner_row(0xffccff, "|  _____||_     _||   | ||  |  |_|  ||_     _||   _   ||  _____|"));
            effects.push(banner_row(0xffbbff, "| |_____   |   |  |   |_||_ |       |  |   |  |  | |  || |_____ "));
            effects.push(banner_row(0xffaaff, "|_____  |  |   |  |    __  ||       |  |   |  |  |_|  ||_____  |"));
            effects.push(banner_row(0xff99ff, " _____| |  |   |  |   |  | ||   _   |  |   |  |       | _____| |"));
            effects.push(banner_row(0xff88ff, "|_______|  |___|  |___|  |_||__| |__|  |___|  |_______||_______|"));
            push_line(&mut lines, "");
            ShellOutput { lines, effects }
        } else if crate::textfmt::str_eq(c, "make") {
            let mut lines: Vec<String> = Vec::new();
            let m = makel(&parts, 1);
            lines.push(m);
            ShellOutput { lines, effects }
        } else if crate::textfmt::str_eq(c, "validate") {
            let mut lines: Vec<String> = Vec::new();
            let m = validation(&parts, 1);
            lines.push(m);
            ShellOutput { lines, effects }
        } else if crate::textfmt::str_eq(c, "c418") {
            let mut lines: Vec<String> = Vec::new();
            push_line(&mut lines, "Droopy Likes Your Face");
            ShellOutput { lines, effects }
        } else if crate::textfmt::str_eq(c, "time") {
            let mut effects: Vec<Effect> = Vec::new();
            let mut note = String::new();
            note.append("Note: 'time' moved to 'os time'.");
            effects.push(Effect::ColoredLine(0xFF0000, note));
            let empty_args: Vec<String> = Vec::new();
            let lines = time_cmd(&mut self.clock, &empty_args, 0, rtc);
            ShellOutput { lines, effects }
        } else if crate::textfmt::str_eq(c, "help") {
            ShellOutput { lines: help(&parts, 1), effects }
        } else if crate::textfmt::str_eq(c, "os") {
            let lines = self.os_command(&parts, 1, rtc);
            ShellOutput { lines, effects }
        } else if crate::textfmt::str_eq(c, "reboot") {
            let mut lines: Vec<String> = Vec::new();
            let mut effects: Vec<Effect> = Vec::new();
            push_line(&mut lines, "Attempting to reboot...");
            effects.push(Effect::Reboot);
            ShellOutput { lines, effects }
        } else if crate::textfmt::str_eq(c, "fbinfo") {
            let mut effects: Vec<Effect> = Vec::new();
            effects.push(Effect::ShowFbInfo);
            let lines: Vec<String> = Vec::new();
            ShellOutput { lines, effects }
        } else if crate::textfmt::str_eq(c, "shutdown") {
            let mut lines: Vec<String> = Vec::new();
            let mut effects: Vec<Effect> = Vec::new();
            push_line(&mut lines, "Attempting to shut down...");
            effects.push(Effect::Shutdown);
            ShellOutput { lines, effects }
        } else if crate::textfmt::str_eq(c, "meminfo") {
            ShellOutput { lines: meminfo(&self.mem), effects }
        } else if crate::textfmt::str_eq(c, "memtest") {
            ShellOutput { lines: self.mem_selftest(), effects }
        } else if crate::textfmt::str_eq(c, "cpuinfo") {
            let mut effects: Vec<Effect> = Vec::new();
            effects.push(Effect::ShowCpuInfo);
            let lines: Vec<String> = Vec::new();
            ShellOutput { lines, effects }
        } else if crate::textfmt::str_eq(c, "halt") {
            let mut lines: Vec<String> = Vec::new();
            let mut effects: Vec<Effect> = Vec::new();
            if parts.len() == 2 && crate::textfmt::str_eq(parts[1].as_str(), "yes-i-know") {
                push_line(&mut lines, "System halted.");
                effects.push(Effect::Halt);
            } else {
                push_line(&mut lines, "Refusing to halt. Use: halt yes-i-know");
            }
            ShellOutput { lines, effects }
        } else if crate::textfmt::str_eq(c, "panic") {
            self.panic_command(&parts)
        } else if crate::textfmt::str_eq(c, "alias") {
            let mut lines: Vec<String> = Vec::new();
            if parts.len() == 3 {
                let msg = self.aliases.add_alias(parts[2].as_str(), parts[1].as_str());
                lines.push(msg);
            } else {
                push_line(&mut lines, "Usage: alias <command> <alias>");
            }
            ShellOutput { lines, effects }
        } else if crate::textfmt::str_eq(c, "unalias") {
            let mut lines: Vec<String> = Vec::new();
            if parts.len() == 2 {
                if self.aliases.remove_alias(parts[1].as_str()) {
                    push_line(&mut lines, "Alias removed.");
                } else {
                    push_line(&mut lines, "Alias not found.");
                }
            } else {
                push_line(&mut lines, "Usage: unalias <alias>");
            }
            ShellOutput { lines, effects }
        } else if crate::textfmt::str_eq(c, "aliases") {
            ShellOutput { lines: self.aliases.list_aliases(), effects }
        } else {
            let mut lines: Vec<String> = Vec::new();
            let mut line = String::new();
            line.append("Unknown command: ");
            line.append(parts[0].as_str());
            lines.push(line);
            ShellOutput { lines, effects }
        }
    }

    /// The `panic` command: a known fault mode becomes an effect for the
    /// runtime to trigger, anything else prints the usage.
    fn panic_command(&mut self, parts: &Vec<String>) -> (r: ShellOutput)
        ensures
            *final(self) == *old(self),
    {
        let mut lines: Vec<String> = Vec::new();
        let mut effects: Vec<Effect> = Vec::new();
        if parts.len() == 3 && crate::textfmt::str_eq(parts[1].as_str(), "yes-i-know") {
            let mode = parts[2].as_str();
            let known: bool = crate::textfmt::str_eq(mode, "controlled")
                || crate::textfmt::str_eq(mode, "int4") || crate::textfmt::str_eq(mode, "badmem")
                || crate::textfmt::str_eq(mode, "delidt") || crate::textfmt::str_eq(
                mode,
                "nullidt",
            ) || crate::textfmt::str_eq(mode, "int3") || crate::textfmt::str_eq(
                mode,
                "int3andkill",
            ) || crate::textfmt::str_eq(mode, "divby0") || crate::textfmt::str_eq(mode, "ud");
            if known {
                if crate::textfmt::str_eq(mode, "int4") {
                    push_line(&mut lines, "Testing INT4 response...");
                } else if crate::textfmt::str_eq(mode, "badmem") {
                    push_line(&mut lines, "Corrupting memory to trigger kernel panic...");
                } else if crate::textfmt::str_eq(mode, "delidt") {
                    push_line(&mut lines, "Deleting IDT then faulting...");
                } else if crate::textfmt::str_eq(mode, "nullidt") {
                    push_line(&mut lines, "Loading empty IDT then faulting...");
                } else if crate::textfmt::str_eq(mode, "int3") {
                    push_line(&mut lines, "Testing INT3 response... (check serial)");
                } else if crate::textfmt::str_eq(mode, "int3andkill") {
                    push_line(&mut lines, "int3'ing to #UD");
                } else if crate::textfmt::str_eq(mode, "divby0") {
                    push_line(&mut lines, "Dividing by 0...");
                } else if crate::textfmt::str_eq(mode, "ud") {
                    push_line(&mut lines, "Attempting to trigger #UD...");
                }
                let owned: String = mode.to_owned();
                effects.push(Effect::TriggerFault(owned));
                return ShellOutput { lines, effects };
            }
        }
        push_line(
            &mut lines,
            "Usage: panic yes-i-know [controlled|badmem|delidt|nullidt|int3|int3andkill|divby0|ud]",
        );
        ShellOutput { lines, effects }
    }

    /// Run a whole input line: split on unquoted `&&` and dispatch each
    /// segment in order, concatenating the outputs.
    pub fn handle_line(&mut self, input: &str, now_ticks: u64, rtc: DateTime) -> (r: ShellOutput)
        requires
            old(self).wf(),
            crate::time::valid_datetime(rtc),
        ensures
            final(self).wf(),
            spec_split_cmds(input@).len() == 0 ==> lines_model(r.lines@) =~= Seq::<
                Seq<char>,
            >::empty() && r.effects@.len() == 0 && *final(self) == *old(self),
    {
        let cmds = split_deuxand(input);
        let mut lines: Vec<String> = Vec::new();
        let mut effects: Vec<Effect> = Vec::new();
        let n = cmds.len();
        let mut i: usize = 0;
        while i < n
            invariant
                i <= n,
                n == cmds@.len(),
                self.wf(),
                crate::time::valid_datetime(rtc),
                i == 0 ==> lines@.len() == 0 && effects@.len() == 0 && *self == *old(self),
            decreases n - i,
        {
            let mut out = self.handle_command(cmds[i].as_str(), now_ticks, rtc);
            lines.append(&mut out.lines);
            effects.append(&mut out.effects);
            i = i + 1;
        }
        ShellOutput { lines, effects }
    }
}

/// One banner row as a colored-line effect.
fn banner_row(color: u32, text: &str) -> (e: Effect)
    ensures
        e matches Effect::ColoredLine(c, s) && c == color && s@ == text@,
{
    let owned: String = text.to_owned();
    Effect::ColoredLine(color, owned)
}

/// What `os` with no arguments prints.
pub open spec fn spec_help_os() -> Seq<Seq<char>> {
    seq![
        "Usage: os <font|cursor|hud|text|bg> ..."@,
        "  font   default/vga8|terminus|spleen"@,
        "  cursor style underscore|line|block|hidden"@,
        "  cursor blink none|pulse|fade"@,
        "  cursor color <hex>"@,
        "  hud    on|off"@,
        "  text   <hex>  (default text color)"@,
        "  bg     <hex>  (default background, clears screen)"@,
        "  cmdhistory clear|toggle"@,
        "  time   12hr|24hr|sync|help"@,
        "  theme  list | <preset name> (apply or list customization presets)"@,
    ]
}

/// Once a word fails to fit, the whole strict join stays failed.
proof fn lemma_secho_stuck(ws: Seq<Seq<char>>, i: int)
    requires
        0 <= i <= ws.len(),
        spec_secho(ws.take(i)) is None,
    ensures
        spec_secho(ws) is None,
    decreases ws.len() - i,
{
    if i < ws.len() {
        assert(ws.take(i + 1).drop_last() =~= ws.take(i));
        lemma_secho_stuck(ws, i + 1);
    } else {
        assert(ws.take(i) =~= ws);
    }
}

} // verus!
