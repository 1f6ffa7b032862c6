//! The per-game launch configuration and its settings-file codec: a
//! key-value text format with quoted, escaped values, written and read by
//! verified functions whose round trip is proved.

use vstd::prelude::*;
use vstd::string::StringExecFns;

use crate::engine::detect_engine_type;
use crate::engine::spec_detect;
use crate::engine::spec_engine_as_str;
use crate::engine::spec_engine_from_str;
use crate::engine::EngineType;
use crate::errors::AppError;
use crate::fsmodel::DirSnapshot;
use crate::records::Game;
use crate::text::chars_start_with;
use crate::text::chars_string;
use crate::text::str_chars;
use crate::text::str_eq;

verus! {

/// The per-game launch configuration, persisted as the settings file inside
/// the game's container directory.
#[derive(Debug)]
pub struct GameConfig {
    /// Engine family tag (denormalized copy of the record's).
    pub engine_type: String,
    /// Explicit entry-path override; empty means none.
    pub entry_path: String,
    /// Pinned runtime version, if any.
    pub runtime_version: Option<String>,
    /// Extra command-line arguments, in order.
    pub args: Vec<String>,
    /// Whether the launched process's home is redirected into the container.
    pub sandbox_home: bool,
    /// File name of the stored cover image, if any.
    pub cover_file: Option<String>,
}

/// The default value of the sandbox flag.
pub fn default_true() -> (r: bool)
    ensures
        r,
{
    true
}

impl Default for GameConfig {
    /// An empty configuration: no tag, no entry, no pinned runtime, no
    /// arguments, sandbox on, no cover.
    fn default() -> (r: GameConfig)
        ensures
            r.engine_type@.len() == 0,
            r.entry_path@.len() == 0,
            r.runtime_version is None,
            r.args@.len() == 0,
            r.sandbox_home,
            r.cover_file is None,
    {
        GameConfig {
            engine_type: String::new(),
            entry_path: String::new(),
            runtime_version: None,
            args: Vec::new(),
            sandbox_home: true,
            cover_file: None,
        }
    }
}

// === escaping ===

/// The escaped form of one character: backslash, double quote, newline and
/// carriage return gain a backslash escape; everything else stands verbatim.
pub open spec fn spec_esc_char(c: char) -> Seq<char> {
    if c == '\\' {
        seq!['\\', '\\']
    } else if c == '"' {
        seq!['\\', '"']
    } else if c == '\n' {
        seq!['\\', 'n']
    } else if c == '\r' {
        seq!['\\', 'r']
    } else {
        seq![c]
    }
}

/// The escaped form of a string: each character escaped in order.
pub open spec fn spec_escape(s: Seq<char>) -> Seq<char>
    decreases s.len(),
{
    if s.len() == 0 {
        Seq::empty()
    } else {
        spec_esc_char(s[0]) + spec_escape(s.skip(1))
    }
}

/// The string an escaped form denotes, when every escape is well-formed.
pub open spec fn spec_unescape(s: Seq<char>) -> Option<Seq<char>>
    decreases s.len(),
{
    if s.len() == 0 {
        Some(Seq::empty())
    } else if s[0] == '\\' {
        if s.len() < 2 {
            None
        } else {
            let c = if s[1] == '\\' {
                Some('\\')
            } else if s[1] == '"' {
                Some('"')
            } else if s[1] == 'n' {
                Some('\n')
            } else if s[1] == 'r' {
                Some('\r')
            } else {
                None
            };
            match c {
                None => None,
                Some(c0) => match spec_unescape(s.skip(2)) {
                    None => None,
                    Some(rest) => Some(seq![c0] + rest),
                },
            }
        }
    } else {
        match spec_unescape(s.skip(1)) {
            None => None,
            Some(rest) => Some(seq![s[0]] + rest),
        }
    }
}

/// Unescaping inverts escaping, for every string.
pub proof fn lemma_escape_round_trip(s: Seq<char>)
    ensures
        spec_unescape(spec_escape(s)) == Some(s),
    decreases s.len(),
{
    if s.len() == 0 {
        assert(spec_escape(s) =~= Seq::<char>::empty());
    } else {
        let rest = s.skip(1);
        lemma_escape_round_trip(rest);
        let e = spec_esc_char(s[0]) + spec_escape(rest);
        assert(spec_escape(s) == e);
        if s[0] == '\\' || s[0] == '"' || s[0] == '\n' || s[0] == '\r' {
            assert(e.len() >= 2);
            assert(e[0] == '\\');
            assert(e.skip(2) =~= spec_escape(rest));
            assert(spec_unescape(e) == Some(seq![s[0]] + rest));
            assert(seq![s[0]] + rest =~= s);
        } else {
            assert(e[0] == s[0]);
            assert(e[0] != '\\');
            assert(e.skip(1) =~= spec_escape(rest));
            assert(spec_unescape(e) == Some(seq![s[0]] + rest));
            assert(seq![s[0]] + rest =~= s);
        }
    }
}

/// An escaped form never contains a newline, so one line holds one value.
pub proof fn lemma_escape_clean(s: Seq<char>)
    ensures
        !spec_escape(s).contains('\n'),
    decreases s.len(),
{
    if s.len() == 0 {
    } else {
        lemma_escape_clean(s.skip(1));
        let e = spec_esc_char(s[0]);
        if s[0] == '\\' || s[0] == '"' || s[0] == '\n' || s[0] == '\r' {
            assert(e.len() == 2 && e[0] == '\\' && e[1] != '\n');
        } else {
            assert(e.len() == 1 && e[0] == s[0] && e[0] != '\n');
        }
        assert(forall|i: int| 0 <= i < e.len() ==> e[i] != '\n');
        assert forall|i: int| 0 <= i < spec_escape(s).len() implies spec_escape(s)[i] != '\n' by {
            if i < e.len() {
                assert(spec_escape(s)[i] == e[i]);
            } else {
                assert(spec_escape(s)[i] == spec_escape(s.skip(1))[i - e.len()]);
                assert(!spec_escape(s.skip(1)).contains('\n'));
            }
        }
        assert(!spec_escape(s).contains('\n')) by {
            if spec_escape(s).contains('\n') {
                let i = choose|i: int|
                    0 <= i < spec_escape(s).len() && spec_escape(s)[i] == '\n';
            }
        }
    }
}

/// Escapes every character of `v`.
pub fn escape_chars(v: &Vec<char>) -> (r: Vec<char>)
    ensures
        r@ == spec_escape(v@),
{
    let mut out: Vec<char> = Vec::new();
    let mut i: usize = 0;
    assert(v@.skip(0) =~= v@);
    while i < v.len()
        invariant
            0 <= i <= v@.len(),
            spec_escape(v@) == out@ + spec_escape(v@.skip(i as int)),
        decreases v@.len() - i,
    {
        let c = v[i];
        assert(v@.skip(i as int)[0] == v@[i as int]);
        assert(v@.skip(i as int).skip(1) =~= v@.skip(i + 1));
        if c == '\\' {
            out.push('\\');
            out.push('\\');
        } else if c == '"' {
            out.push('\\');
            out.push('"');
        } else if c == '\n' {
            out.push('\\');
            out.push('n');
        } else if c == '\r' {
            out.push('\\');
            out.push('r');
        } else {
            out.push(c);
        }
        i = i + 1;
    }
    assert(v@.skip(v@.len() as int) =~= Seq::<char>::empty());
    out
}

/// Reads an escaped form back; `None` on a dangling or unknown escape.
pub fn unescape_chars(v: &Vec<char>) -> (r: Option<Vec<char>>)
    ensures
        match r {
            Some(out) => spec_unescape(v@) == Some(out@),
            None => spec_unescape(v@) is None,
        },
{
    let mut out: Vec<char> = Vec::new();
    let mut i: usize = 0;
    assert(v@.skip(0) =~= v@);
    while i < v.len()
        invariant
            0 <= i <= v@.len(),
            spec_unescape(v@) == (match spec_unescape(v@.skip(i as int)) {
                Some(rest) => Some(out@ + rest),
                None => None::<Seq<char>>,
            }),
        decreases v@.len() - i,
    {
        let c = v[i];
        assert(v@.skip(i as int)[0] == v@[i as int]);
        if c == '\\' {
            if i + 1 >= v.len() {
                assert(v@.skip(i as int).len() < 2);
                return None;
            }
            let d = v[i + 1];
            assert(v@.skip(i as int)[1] == v@[i + 1]);
            assert(v@.skip(i as int).skip(2) =~= v@.skip(i + 2));
            let u: char = if d == '\\' {
                '\\'
            } else if d == '"' {
                '"'
            } else if d == 'n' {
                '\n'
            } else if d == 'r' {
                '\r'
            } else {
                ' '
            };
            if !(d == '\\' || d == '"' || d == 'n' || d == 'r') {
                return None;
            }
            let ghost before = out@;
            out.push(u);
            assert(out@ =~= before + seq![u]);
            proof {
                if spec_unescape(v@.skip(i + 2)) is Some {
                    assert(before + (seq![u] + spec_unescape(v@.skip(i + 2))->0) =~= out@
                        + spec_unescape(v@.skip(i + 2))->0);
                }
            }
            i = i + 2;
        } else {
            assert(v@.skip(i as int).skip(1) =~= v@.skip(i + 1));
            let ghost before = out@;
            out.push(c);
            assert(out@ =~= before + seq![c]);
            proof {
                if spec_unescape(v@.skip(i + 1)) is Some {
                    assert(before + (seq![c] + spec_unescape(v@.skip(i + 1))->0) =~= out@
                        + spec_unescape(v@.skip(i + 1))->0);
                }
            }
            i = i + 1;
        }
    }
    assert(v@.skip(v@.len() as int) =~= Seq::<char>::empty());
    assert(out@ + Seq::<char>::empty() =~= out@);
    Some(out)
}

// === lines ===

/// Splits on newlines, scanning from the left; `cur` is the segment read so
/// far. A trailing segment is kept only when non-empty, so text whose every
/// line ends in a newline splits into exactly those lines.
pub open spec fn spec_split_acc(s: Seq<char>, cur: Seq<char>) -> Seq<Seq<char>>
    decreases s.len(),
{
    if s.len() == 0 {
        if cur.len() == 0 {
            Seq::empty()
        } else {
            seq![cur]
        }
    } else if s[0] == '\n' {
        seq![cur] + spec_split_acc(s.skip(1), Seq::empty())
    } else {
        spec_split_acc(s.skip(1), cur.push(s[0]))
    }
}

/// The lines of a text, split on newlines.
pub open spec fn spec_split_lines(s: Seq<char>) -> Seq<Seq<char>> {
    spec_split_acc(s, Seq::empty())
}

/// Splitting `line + '\n' + rest` yields `cur + line` first and then the
/// split of the rest, when the line itself holds no newline.
pub proof fn lemma_split_line(line: Seq<char>, rest: Seq<char>, cur: Seq<char>)
    requires
        !line.contains('\n'),
    ensures
        spec_split_acc(line + seq!['\n'] + rest, cur) == seq![cur + line] + spec_split_acc(
            rest,
            Seq::empty(),
        ),
    decreases line.len(),
{
    let s = line + seq!['\n'] + rest;
    if line.len() == 0 {
        assert(s[0] == '\n');
        assert(s.skip(1) =~= rest);
        assert(cur + line =~= cur);
    } else {
        if line[0] == '\n' {
            assert(line.contains('\n'));
        }
        assert(s[0] == line[0]);
        assert(s.skip(1) =~= line.skip(1) + seq!['\n'] + rest);
        if line.skip(1).contains('\n') {
            let i = choose|i: int| 0 <= i < line.skip(1).len() && line.skip(1)[i] == '\n';
            assert(line[i + 1] == '\n');
            assert(line.contains('\n'));
        }
        lemma_split_line(line.skip(1), rest, cur.push(line[0]));
        assert(cur.push(line[0]) + line.skip(1) =~= cur + line);
    }
}

/// Splits a character vector into its lines.
pub fn split_lines(v: &Vec<char>) -> (r: Vec<Vec<char>>)
    ensures
        r@.map_values(|x: Vec<char>| x@) == spec_split_lines(v@),
{
    let mut out: Vec<Vec<char>> = Vec::new();
    let mut cur: Vec<char> = Vec::new();
    let mut i: usize = 0;
    assert(v@.skip(0) =~= v@);
    assert(out@.map_values(|x: Vec<char>| x@) =~= Seq::<Seq<char>>::empty());
    while i < v.len()
        invariant
            0 <= i <= v@.len(),
            spec_split_lines(v@) == out@.map_values(|x: Vec<char>| x@) + spec_split_acc(
                v@.skip(i as int),
                cur@,
            ),
        decreases v@.len() - i,
    {
        let c = v[i];
        assert(v@.skip(i as int)[0] == v@[i as int]);
        assert(v@.skip(i as int).skip(1) =~= v@.skip(i + 1));
        if c == '\n' {
            let ghost before = out@.map_values(|x: Vec<char>| x@);
            out.push(cur);
            cur = Vec::new();
            assert(out@.map_values(|x: Vec<char>| x@) =~= before.push(out@.last()@));
            assert(before + (seq![out@.last()@] + spec_split_acc(v@.skip(i + 1), cur@))
                =~= out@.map_values(|x: Vec<char>| x@) + spec_split_acc(v@.skip(i + 1), cur@));
        } else {
            cur.push(c);
        }
        i = i + 1;
    }
    assert(v@.skip(v@.len() as int) =~= Seq::<char>::empty());
    if cur.len() > 0 {
        let ghost before = out@.map_values(|x: Vec<char>| x@);
        let ghost curv = cur@;
        out.push(cur);
        assert(out@.map_values(|x: Vec<char>| x@) =~= before.push(curv));
        assert(before + seq![curv] =~= before.push(curv));
    } else {
        assert(spec_split_acc(Seq::<char>::empty(), cur@) =~= Seq::<Seq<char>>::empty());
        assert(out@.map_values(|x: Vec<char>| x@) + Seq::<Seq<char>>::empty() =~= out@.map_values(
            |x: Vec<char>| x@,
        ));
    }
    out
}

// === the keys of the settings file ===

/// The characters of the `engine_type` key.
pub open spec fn key_engine_type() -> Seq<char> {
    seq!['e', 'n', 'g', 'i', 'n', 'e', '_', 't', 'y', 'p', 'e']
}

/// The characters of the `entry_path` key.
pub open spec fn key_entry_path() -> Seq<char> {
    seq!['e', 'n', 't', 'r', 'y', '_', 'p', 'a', 't', 'h']
}

/// The characters of the `runtime_version` key.
pub open spec fn key_runtime_version() -> Seq<char> {
    seq!['r', 'u', 'n', 't', 'i', 'm', 'e', '_', 'v', 'e', 'r', 's', 'i', 'o', 'n']
}

/// The characters of the `cover_file` key.
pub open spec fn key_cover_file() -> Seq<char> {
    seq!['c', 'o', 'v', 'e', 'r', '_', 'f', 'i', 'l', 'e']
}

/// The characters of the `arg` key.
pub open spec fn key_arg() -> Seq<char> {
    seq!['a', 'r', 'g']
}

/// The ` = "` separator between a key and its opening quote.
pub open spec fn key_sep() -> Seq<char> {
    seq![' ', '=', ' ', '"']
}

/// The `sandbox_home = ` head of the boolean line.
pub open spec fn key_sandbox() -> Seq<char> {
    seq!['s', 'a', 'n', 'd', 'b', 'o', 'x', '_', 'h', 'o', 'm', 'e', ' ', '=', ' ']
}

/// `true` as characters.
pub open spec fn word_true() -> Seq<char> {
    seq!['t', 'r', 'u', 'e']
}

/// `false` as characters.
pub open spec fn word_false() -> Seq<char> {
    seq!['f', 'a', 'l', 's', 'e']
}

/// The characters of the `engine_type` key, as a vector.
fn key_engine_type_chars() -> (r: Vec<char>)
    ensures
        r@ == key_engine_type(),
{
    let mut v: Vec<char> = Vec::new();
    v.push('e');
    v.push('n');
    v.push('g');
    v.push('i');
    v.push('n');
    v.push('e');
    v.push('_');
    v.push('t');
    v.push('y');
    v.push('p');
    v.push('e');
    assert(v@ =~= key_engine_type());
    v
}

/// The characters of the `entry_path` key, as a vector.
fn key_entry_path_chars() -> (r: Vec<char>)
    ensures
        r@ == key_entry_path(),
{
    let mut v: Vec<char> = Vec::new();
    v.push('e');
    v.push('n');
    v.push('t');
    v.push('r');
    v.push('y');
    v.push('_');
    v.push('p');
    v.push('a');
    v.push('t');
    v.push('h');
    assert(v@ =~= key_entry_path());
    v
}

/// The characters of the `runtime_version` key, as a vector.
fn key_runtime_version_chars() -> (r: Vec<char>)
    ensures
        r@ == key_runtime_version(),
{
    let mut v: Vec<char> = Vec::new();
    v.push('r');
    v.push('u');
    v.push('n');
    v.push('t');
    v.push('i');
    v.push('m');
    v.push('e');
    v.push('_');
    v.push('v');
    v.push('e');
    v.push('r');
    v.push('s');
    v.push('i');
    v.push('o');
    v.push('n');
    assert(v@ =~= key_runtime_version());
    v
}

/// The characters of the `cover_file` key, as a vector.
fn key_cover_file_chars() -> (r: Vec<char>)
    ensures
        r@ == key_cover_file(),
{
    let mut v: Vec<char> = Vec::new();
    v.push('c');
    v.push('o');
    v.push('v');
    v.push('e');
    v.push('r');
    v.push('_');
    v.push('f');
    v.push('i');
    v.push('l');
    v.push('e');
    assert(v@ =~= key_cover_file());
    v
}

/// The characters of the `arg` key, as a vector.
fn key_arg_chars() -> (r: Vec<char>)
    ensures
        r@ == key_arg(),
{
    let mut v: Vec<char> = Vec::new();
    v.push('a');
    v.push('r');
    v.push('g');
    assert(v@ =~= key_arg());
    v
}

/// The characters of the ` = "` separator, as a vector.
fn key_sep_chars() -> (r: Vec<char>)
    ensures
        r@ == key_sep(),
{
    let mut v: Vec<char> = Vec::new();
    v.push(' ');
    v.push('=');
    v.push(' ');
    v.push('"');
    assert(v@ =~= key_sep());
    v
}

/// The characters of the `sandbox_home = ` line head, as a vector.
fn key_sandbox_chars() -> (r: Vec<char>)
    ensures
        r@ == key_sandbox(),
{
    let mut v: Vec<char> = Vec::new();
    v.push('s');
    v.push('a');
    v.push('n');
    v.push('d');
    v.push('b');
    v.push('o');
    v.push('x');
    v.push('_');
    v.push('h');
    v.push('o');
    v.push('m');
    v.push('e');
    v.push(' ');
    v.push('=');
    v.push(' ');
    assert(v@ =~= key_sandbox());
    v
}

/// `dst` with every character of `src` appended.
fn append_chars(dst: Vec<char>, src: &Vec<char>) -> (r: Vec<char>)
    ensures
        r@ == dst@ + src@,
{
    let ghost base = dst@;
    let mut out = dst;
    let mut i: usize = 0;
    assert(out@ =~= base + src@.take(0));
    while i < src.len()
        invariant
            0 <= i <= src@.len(),
            out@ == base + src@.take(i as int),
        decreases src@.len() - i,
    {
        out.push(src[i]);
        assert(base + src@.take(i as int) + seq![src@[i as int]] =~= base + src@.take(i + 1));
        i = i + 1;
    }
    assert(src@.take(src@.len() as int) =~= src@);
    out
}

// === key-value lines ===

/// The line `key = "<escaped value>"`.
pub open spec fn spec_kv_line(key: Seq<char>, value: Seq<char>) -> Seq<char> {
    key + key_sep() + spec_escape(value) + seq!['"']
}

/// Parses a line against a full prefix (`key = "`): the line must start with
/// it, end in a closing quote, and unescape in between.
pub open spec fn spec_parse_kv_prefix(line: Seq<char>, prefix: Seq<char>) -> Option<Seq<char>> {
    if line.len() >= prefix.len() + 1 && line.take(prefix.len() as int) == prefix && line[line.len()
        - 1] == '"' {
        spec_unescape(line.subrange(prefix.len() as int, line.len() - 1))
    } else {
        None
    }
}

/// Parses a line as `key = "<escaped>"`.
pub open spec fn spec_parse_kv(line: Seq<char>, key: Seq<char>) -> Option<Seq<char>> {
    spec_parse_kv_prefix(line, key + key_sep())
}

/// The boolean line `sandbox_home = true` or `sandbox_home = false`.
pub open spec fn spec_bool_line(b: bool) -> Seq<char> {
    key_sandbox() + (if b {
        word_true()
    } else {
        word_false()
    })
}

/// Parses the boolean line, by exact comparison.
pub open spec fn spec_parse_bool(line: Seq<char>) -> Option<bool> {
    if line == key_sandbox() + word_true() {
        Some(true)
    } else if line == key_sandbox() + word_false() {
        Some(false)
    } else {
        None
    }
}

/// Parsing a generated key-value line with its own key yields the value.
pub proof fn lemma_parse_kv_round(key: Seq<char>, value: Seq<char>)
    ensures
        spec_parse_kv(spec_kv_line(key, value), key) == Some(value),
{
    let prefix = key + key_sep();
    let line = spec_kv_line(key, value);
    let e = spec_escape(value);
    assert(line =~= prefix + e + seq!['"']);
    assert(line.len() == prefix.len() + e.len() + 1);
    assert(line.take(prefix.len() as int) =~= prefix);
    assert(line[line.len() - 1] == '"');
    assert(line.subrange(prefix.len() as int, line.len() - 1) =~= e);
    lemma_escape_round_trip(value);
}

/// A line whose first character differs from the key's first character never
/// parses under that key.
pub proof fn lemma_parse_kv_mismatch(line: Seq<char>, key: Seq<char>)
    requires
        line.len() > 0,
        key.len() > 0,
        line[0] != key[0],
    ensures
        spec_parse_kv(line, key) is None,
{
    let prefix = key + key_sep();
    assert(prefix[0] == key[0]);
    if line.len() >= prefix.len() + 1 {
        assert(line.take(prefix.len() as int)[0] == line[0]);
        assert(line.take(prefix.len() as int) != prefix);
    }
}

/// Neither concatenand holding a character, their concatenation holds none.
pub proof fn lemma_concat_no_char(a: Seq<char>, b: Seq<char>, c: char)
    requires
        !a.contains(c),
        !b.contains(c),
    ensures
        !(a + b).contains(c),
{
    if (a + b).contains(c) {
        let i = choose|i: int| 0 <= i < (a + b).len() && (a + b)[i] == c;
        if i < a.len() {
            assert(a[i] == c);
            assert(a.contains(c));
        } else {
            assert(b[i - a.len()] == c);
            assert(b.contains(c));
        }
    }
}

/// None of the fixed key heads contains a newline.
pub proof fn lemma_keys_no_newline()
    ensures
        !key_engine_type().contains('\n'),
        !key_entry_path().contains('\n'),
        !key_runtime_version().contains('\n'),
        !key_cover_file().contains('\n'),
        !key_arg().contains('\n'),
        !key_sep().contains('\n'),
        !key_sandbox().contains('\n'),
        !word_true().contains('\n'),
        !word_false().contains('\n'),
        !seq!['"'].contains('\n'),
{
    assert forall|i: int| 0 <= i < key_engine_type().len() implies key_engine_type()[i] != '\n' by {}
    assert(!key_engine_type().contains('\n'));
    assert forall|i: int| 0 <= i < key_entry_path().len() implies key_entry_path()[i] != '\n' by {}
    assert(!key_entry_path().contains('\n'));
    assert forall|i: int|
        0 <= i < key_runtime_version().len() implies key_runtime_version()[i] != '\n' by {}
    assert(!key_runtime_version().contains('\n'));
    assert forall|i: int| 0 <= i < key_cover_file().len() implies key_cover_file()[i] != '\n' by {}
    assert(!key_cover_file().contains('\n'));
    assert forall|i: int| 0 <= i < key_arg().len() implies key_arg()[i] != '\n' by {}
    assert(!key_arg().contains('\n'));
    assert forall|i: int| 0 <= i < key_sep().len() implies key_sep()[i] != '\n' by {}
    assert(!key_sep().contains('\n'));
    assert forall|i: int| 0 <= i < key_sandbox().len() implies key_sandbox()[i] != '\n' by {}
    assert(!key_sandbox().contains('\n'));
    assert forall|i: int| 0 <= i < word_true().len() implies word_true()[i] != '\n' by {}
    assert(!word_true().contains('\n'));
    assert forall|i: int| 0 <= i < word_false().len() implies word_false()[i] != '\n' by {}
    assert(!word_false().contains('\n'));
    assert forall|i: int| 0 <= i < seq!['"'].len() implies seq!['"'][i] != '\n' by {}
    assert(!seq!['"'].contains('\n'));
}

/// A generated key-value line holds no newline.
pub proof fn lemma_kv_line_no_newline(key: Seq<char>, value: Seq<char>)
    requires
        !key.contains('\n'),
    ensures
        !spec_kv_line(key, value).contains('\n'),
{
    lemma_keys_no_newline();
    lemma_escape_clean(value);
    lemma_concat_no_char(key, key_sep(), '\n');
    lemma_concat_no_char(key + key_sep(), spec_escape(value), '\n');
    lemma_concat_no_char(key + key_sep() + spec_escape(value), seq!['"'], '\n');
}

/// The generated boolean line holds no newline.
pub proof fn lemma_bool_line_no_newline(b: bool)
    ensures
        !spec_bool_line(b).contains('\n'),
{
    lemma_keys_no_newline();
    if b {
        lemma_concat_no_char(key_sandbox(), word_true(), '\n');
    } else {
        lemma_concat_no_char(key_sandbox(), word_false(), '\n');
    }
}

/// Parses one line against the full prefix `key = "`.
fn parse_kv_line(line: &Vec<char>, prefix: &Vec<char>) -> (r: Option<Vec<char>>)
    ensures
        match r {
            Some(v) => spec_parse_kv_prefix(line@, prefix@) == Some(v@),
            None => spec_parse_kv_prefix(line@, prefix@) is None,
        },
{
    if line.len() < prefix.len() || line.len() == prefix.len() {
        return None;
    }
    if !chars_start_with(line, prefix) {
        assert(line@.take(prefix@.len() as int) =~= line@.take(prefix@.len() as int));
        assert(prefix@.is_prefix_of(line@) == (line@.take(prefix@.len() as int) == prefix@));
        return None;
    }
    assert(line@.take(prefix@.len() as int) == prefix@);
    if line[line.len() - 1] != '"' {
        return None;
    }
    let mut body: Vec<char> = Vec::new();
    let mut i: usize = prefix.len();
    let end: usize = line.len() - 1;
    while i < end
        invariant
            prefix@.len() <= i <= end,
            end == line@.len() - 1,
            body@ =~= line@.subrange(prefix@.len() as int, i as int),
        decreases end - i,
    {
        body.push(line[i]);
        i = i + 1;
    }
    unescape_chars(&body)
}

/// Parses the boolean sandbox line.
fn parse_bool_line(line: &Vec<char>) -> (r: Option<bool>)
    ensures
        match r {
            Some(b) => spec_parse_bool(line@) == Some(b),
            None => spec_parse_bool(line@) is None,
        },
{
    let head = key_sandbox_chars();
    let t = append_chars(head, &crate::config::word_true_chars());
    if crate::text::chars_eq(line, &t) {
        return Some(true);
    }
    let head2 = key_sandbox_chars();
    let f = append_chars(head2, &crate::config::word_false_chars());
    if crate::text::chars_eq(line, &f) {
        return Some(false);
    }
    None
}

/// `true` as a character vector.
fn word_true_chars() -> (r: Vec<char>)
    ensures
        r@ == word_true(),
{
    let mut v: Vec<char> = Vec::new();
    v.push('t');
    v.push('r');
    v.push('u');
    v.push('e');
    assert(v@ =~= word_true());
    v
}

/// `false` as a character vector.
fn word_false_chars() -> (r: Vec<char>)
    ensures
        r@ == word_false(),
{
    let mut v: Vec<char> = Vec::new();
    v.push('f');
    v.push('a');
    v.push('l');
    v.push('s');
    v.push('e');
    assert(v@ =~= word_false());
    v
}

// === the whole settings file ===

/// The view of an optional string.
pub open spec fn spec_opt_view(o: Option<String>) -> Option<Seq<char>> {
    match o {
        Some(s) => Some(s@),
        None => None,
    }
}

/// The views of a vector of strings.
pub open spec fn spec_str_views(v: Seq<String>) -> Seq<Seq<char>> {
    v.map_values(|s: String| s@)
}

/// The optional line for an optional value: its key-value line and a
/// newline, or nothing.
pub open spec fn spec_opt_line(key: Seq<char>, o: Option<String>) -> Seq<char> {
    match o {
        Some(v) => spec_kv_line(key, v@) + seq!['\n'],
        None => Seq::empty(),
    }
}

/// One `arg` line per argument, each followed by a newline.
pub open spec fn spec_args_lines(args: Seq<Seq<char>>) -> Seq<char>
    decreases args.len(),
{
    if args.len() == 0 {
        Seq::empty()
    } else {
        spec_kv_line(key_arg(), args[0]) + seq!['\n'] + spec_args_lines(args.skip(1))
    }
}

/// The argument values as their key-value lines.
pub open spec fn spec_map_kv_args(args: Seq<Seq<char>>) -> Seq<Seq<char>> {
    args.map_values(|v: Seq<char>| spec_kv_line(key_arg(), v))
}

/// The settings-file text of a configuration: one line per field, in fixed
/// order, optional fields simply absent, arguments last in order.
pub open spec fn spec_encode_config(c: &GameConfig) -> Seq<char> {
    spec_kv_line(key_engine_type(), c.engine_type@) + seq!['\n'] + (spec_kv_line(
        key_entry_path(),
        c.entry_path@,
    ) + seq!['\n']) + spec_opt_line(key_runtime_version(), c.runtime_version) + (spec_bool_line(
        c.sandbox_home,
    ) + seq!['\n']) + spec_opt_line(key_cover_file(), c.cover_file) + spec_args_lines(
        spec_str_views(c.args@),
    )
}

/// Parses the lines from `k` on as `arg` lines.
pub open spec fn spec_parse_args(lines: Seq<Seq<char>>, k: int) -> Option<Seq<Seq<char>>>
    decreases lines.len() - k,
        when k <= lines.len()
{
    if !(0 <= k < lines.len()) {
        Some(Seq::empty())
    } else {
        match spec_parse_kv(lines[k], key_arg()) {
            None => None,
            Some(v) => match spec_parse_args(lines, k + 1) {
                None => None,
                Some(rest) => Some(seq![v] + rest),
            },
        }
    }
}

/// The parse of a settings file: the field values in declaration order
/// (engine tag, entry path, optional runtime version, optional sandbox flag
/// defaulting to on, optional cover file, arguments), or nothing when the
/// two mandatory lines or any argument line is malformed.
pub open spec fn spec_parse_config(s: Seq<char>) -> Option<
    (Seq<char>, Seq<char>, Option<Seq<char>>, bool, Option<Seq<char>>, Seq<Seq<char>>),
> {
    let lines = spec_split_lines(s);
    if lines.len() < 2 {
        None
    } else {
        match spec_parse_kv(lines[0], key_engine_type()) {
            None => None,
            Some(et) => match spec_parse_kv(lines[1], key_entry_path()) {
                None => None,
                Some(ep) => {
                    let rv = if 2 < lines.len() {
                        spec_parse_kv(lines[2], key_runtime_version())
                    } else {
                        None
                    };
                    let i: int = if rv is Some {
                        3
                    } else {
                        2
                    };
                    let sb = if i < lines.len() {
                        spec_parse_bool(lines[i])
                    } else {
                        None
                    };
                    let sandbox = match sb {
                        Some(b) => b,
                        None => true,
                    };
                    let j: int = if sb is Some {
                        i + 1
                    } else {
                        i
                    };
                    let cv = if j < lines.len() {
                        spec_parse_kv(lines[j], key_cover_file())
                    } else {
                        None
                    };
                    let k: int = if cv is Some {
                        j + 1
                    } else {
                        j
                    };
                    match spec_parse_args(lines, k) {
                        None => None,
                        Some(args) => Some((et, ep, rv, sandbox, cv, args)),
                    }
                }
            },
        }
    }
}

/// Splitting the generated argument lines yields one line per argument.
proof fn lemma_split_args(args: Seq<Seq<char>>)
    ensures
        spec_split_lines(spec_args_lines(args)) == spec_map_kv_args(args),
    decreases args.len(),
{
    if args.len() == 0 {
        assert(spec_map_kv_args(args) =~= Seq::<Seq<char>>::empty());
    } else {
        lemma_split_args(args.skip(1));
        lemma_keys_no_newline();
        lemma_kv_line_no_newline(key_arg(), args[0]);
        let line = spec_kv_line(key_arg(), args[0]);
        assert(spec_args_lines(args) =~= line + seq!['\n'] + spec_args_lines(args.skip(1)));
        lemma_split_line(line, spec_args_lines(args.skip(1)), Seq::empty());
        assert(Seq::<char>::empty() + line =~= line);
        assert(spec_map_kv_args(args) =~= seq![line] + spec_map_kv_args(args.skip(1)));
    }
}

/// Lines that are exactly the generated argument lines parse back to the
/// arguments.
proof fn lemma_parse_args_all(lines: Seq<Seq<char>>, k: int, args: Seq<Seq<char>>)
    requires
        0 <= k <= lines.len(),
        lines.skip(k) == spec_map_kv_args(args),
    ensures
        spec_parse_args(lines, k) == Some(args),
    decreases args.len(),
{
    if args.len() == 0 {
        assert(lines.skip(k).len() == 0);
        assert(args =~= Seq::<Seq<char>>::empty());
    } else {
        assert(lines.skip(k).len() == args.len());
        assert(k < lines.len());
        assert(lines[k] == lines.skip(k)[0]);
        assert(lines[k] == spec_kv_line(key_arg(), args[0]));
        lemma_parse_kv_round(key_arg(), args[0]);
        assert(lines.skip(k + 1) =~= lines.skip(k).skip(1));
        assert(spec_map_kv_args(args).skip(1) =~= spec_map_kv_args(args.skip(1)));
        lemma_parse_args_all(lines, k + 1, args.skip(1));
        assert(seq![args[0]] + args.skip(1) =~= args);
    }
}

/// Writing a configuration and reading it back yields the same
/// configuration: every field, argument order included, survives the
/// settings file unchanged.
#[verifier::rlimit(100)]
pub proof fn lemma_config_round_trip(c: &GameConfig)
    ensures
        spec_parse_config(spec_encode_config(c)) == Some(
            (
                c.engine_type@,
                c.entry_path@,
                spec_opt_view(c.runtime_version),
                c.sandbox_home,
                spec_opt_view(c.cover_file),
                spec_str_views(c.args@),
            ),
        ),
{
    lemma_keys_no_newline();
    let s = spec_encode_config(c);
    let nl = seq!['\n'];
    let l_et = spec_kv_line(key_engine_type(), c.engine_type@);
    let l_ep = spec_kv_line(key_entry_path(), c.entry_path@);
    let l_sb = spec_bool_line(c.sandbox_home);
    let argviews = spec_str_views(c.args@);
    let tail = spec_args_lines(argviews);
    let amap = spec_map_kv_args(argviews);
    lemma_kv_line_no_newline(key_engine_type(), c.engine_type@);
    lemma_kv_line_no_newline(key_entry_path(), c.entry_path@);
    lemma_bool_line_no_newline(c.sandbox_home);
    lemma_split_args(argviews);
    lemma_parse_kv_round(key_engine_type(), c.engine_type@);
    lemma_parse_kv_round(key_entry_path(), c.entry_path@);
    assert(l_sb.len() > 0 && l_sb[0] == 's');
    assert(key_runtime_version().len() > 0 && key_runtime_version()[0] == 'r');
    assert(key_cover_file().len() > 0 && key_cover_file()[0] == 'c');
    lemma_parse_kv_mismatch(l_sb, key_runtime_version());
    assert(key_sandbox() + word_true() != key_sandbox() + word_false()) by {
        assert((key_sandbox() + word_true()).len() == 19);
        assert((key_sandbox() + word_false()).len() == 20);
    }
    assert(spec_parse_bool(l_sb) == Some(c.sandbox_home));
    if c.runtime_version is None && c.cover_file is None {
        let rest2 = l_sb + nl + tail;
        let rest1 = l_ep + nl + rest2;
        assert(s =~= l_et + nl + rest1);
        lemma_split_line(l_et, rest1, Seq::empty());
        assert(rest1 =~= l_ep + nl + rest2);
        lemma_split_line(l_ep, rest2, Seq::empty());
        lemma_split_line(l_sb, tail, Seq::empty());
        assert(Seq::<char>::empty() + l_et =~= l_et);
        assert(Seq::<char>::empty() + l_ep =~= l_ep);
        assert(Seq::<char>::empty() + l_sb =~= l_sb);
        let lines = spec_split_lines(s);
        assert(lines =~= seq![l_et, l_ep, l_sb] + amap);
        assert(lines.len() == 3 + argviews.len());
        assert(lines[0] == l_et && lines[1] == l_ep && lines[2] == l_sb);
        if argviews.len() > 0 {
            assert(lines[3] == amap[0]);
            assert(amap[0] == spec_kv_line(key_arg(), argviews[0]));
            assert(lines[3].len() > 0 && lines[3][0] == 'a');
            lemma_parse_kv_mismatch(lines[3], key_cover_file());
        }
        assert(lines.skip(3) =~= amap);
        lemma_parse_args_all(lines, 3, argviews);
    } else if c.runtime_version is Some && c.cover_file is None {
        let rvs = c.runtime_version->0;
        let l_rv = spec_kv_line(key_runtime_version(), rvs@);
        lemma_kv_line_no_newline(key_runtime_version(), rvs@);
        lemma_parse_kv_round(key_runtime_version(), rvs@);
        let rest3 = l_sb + nl + tail;
        let rest2 = l_rv + nl + rest3;
        let rest1 = l_ep + nl + rest2;
        assert(s =~= l_et + nl + rest1);
        lemma_split_line(l_et, rest1, Seq::empty());
        lemma_split_line(l_ep, rest2, Seq::empty());
        lemma_split_line(l_rv, rest3, Seq::empty());
        lemma_split_line(l_sb, tail, Seq::empty());
        assert(Seq::<char>::empty() + l_et =~= l_et);
        assert(Seq::<char>::empty() + l_ep =~= l_ep);
        assert(Seq::<char>::empty() + l_rv =~= l_rv);
        assert(Seq::<char>::empty() + l_sb =~= l_sb);
        let lines = spec_split_lines(s);
        assert(lines =~= seq![l_et, l_ep, l_rv, l_sb] + amap);
        assert(lines.len() == 4 + argviews.len());
        assert(lines[0] == l_et && lines[1] == l_ep && lines[2] == l_rv && lines[3] == l_sb);
        if argviews.len() > 0 {
            assert(lines[4] == amap[0]);
            assert(amap[0] == spec_kv_line(key_arg(), argviews[0]));
            assert(lines[4].len() > 0 && lines[4][0] == 'a');
            lemma_parse_kv_mismatch(lines[4], key_cover_file());
        }
        assert(lines.skip(4) =~= amap);
        lemma_parse_args_all(lines, 4, argviews);
    } else if c.runtime_version is None && c.cover_file is Some {
        let cvs = c.cover_file->0;
        let l_cv = spec_kv_line(key_cover_file(), cvs@);
        lemma_kv_line_no_newline(key_cover_file(), cvs@);
        lemma_parse_kv_round(key_cover_file(), cvs@);
        let rest3 = l_cv + nl + tail;
        let rest2 = l_sb + nl + rest3;
        let rest1 = l_ep + nl + rest2;
        assert(s =~= l_et + nl + rest1);
        lemma_split_line(l_et, rest1, Seq::empty());
        lemma_split_line(l_ep, rest2, Seq::empty());
        lemma_split_line(l_sb, rest3, Seq::empty());
        lemma_split_line(l_cv, tail, Seq::empty());
        assert(Seq::<char>::empty() + l_et =~= l_et);
        assert(Seq::<char>::empty() + l_ep =~= l_ep);
        assert(Seq::<char>::empty() + l_sb =~= l_sb);
        assert(Seq::<char>::empty() + l_cv =~= l_cv);
        let lines = spec_split_lines(s);
        assert(lines =~= seq![l_et, l_ep, l_sb, l_cv] + amap);
        assert(lines.len() == 4 + argviews.len());
        assert(lines[0] == l_et && lines[1] == l_ep && lines[2] == l_sb && lines[3] == l_cv);
        assert(lines.skip(4) =~= amap);
        lemma_parse_args_all(lines, 4, argviews);
    } else {
        let rvs = c.runtime_version->0;
        let cvs = c.cover_file->0;
        let l_rv = spec_kv_line(key_runtime_version(), rvs@);
        let l_cv = spec_kv_line(key_cover_file(), cvs@);
        lemma_kv_line_no_newline(key_runtime_version(), rvs@);
        lemma_kv_line_no_newline(key_cover_file(), cvs@);
        lemma_parse_kv_round(key_runtime_version(), rvs@);
        lemma_parse_kv_round(key_cover_file(), cvs@);
        let rest4 = l_cv + nl + tail;
        let rest3 = l_sb + nl + rest4;
        let rest2 = l_rv + nl + rest3;
        let rest1 = l_ep + nl + rest2;
        assert(s =~= l_et + nl + rest1);
        lemma_split_line(l_et, rest1, Seq::empty());
        lemma_split_line(l_ep, rest2, Seq::empty());
        lemma_split_line(l_rv, rest3, Seq::empty());
        lemma_split_line(l_sb, rest4, Seq::empty());
        lemma_split_line(l_cv, tail, Seq::empty());
        assert(Seq::<char>::empty() + l_et =~= l_et);
        assert(Seq::<char>::empty() + l_ep =~= l_ep);
        assert(Seq::<char>::empty() + l_rv =~= l_rv);
        assert(Seq::<char>::empty() + l_sb =~= l_sb);
        assert(Seq::<char>::empty() + l_cv =~= l_cv);
        let lines = spec_split_lines(s);
        assert(lines =~= seq![l_et, l_ep, l_rv, l_sb, l_cv] + amap);
        assert(lines.len() == 5 + argviews.len());
        assert(lines[0] == l_et && lines[1] == l_ep && lines[2] == l_rv && lines[3] == l_sb
            && lines[4] == l_cv);
        assert(lines.skip(5) =~= amap);
        lemma_parse_args_all(lines, 5, argviews);
    }
}

/// Appends `key = "<escaped value>"` and a newline.
fn encode_kv_line(out: Vec<char>, key: Vec<char>, value: &str) -> (r: Vec<char>)
    ensures
        r@ == out@ + spec_kv_line(key@, value@) + seq!['\n'],
{
    let ghost base = out@;
    let ghost keyv = key@;
    let mut o = append_chars(out, &key);
    o = append_chars(o, &key_sep_chars());
    let e = escape_chars(&str_chars(value));
    o = append_chars(o, &e);
    o.push('"');
    o.push('\n');
    assert(o@ =~= base + spec_kv_line(keyv, value@) + seq!['\n']);
    o
}

/// Writes a configuration as its settings-file text.
#[verifier::rlimit(60)]
pub fn encode_game_config(c: &GameConfig) -> (r: String)
    ensures
        r@ == spec_encode_config(c),
{
    let mut out: Vec<char> = Vec::new();
    out = encode_kv_line(out, key_engine_type_chars(), c.engine_type.as_str());
    out = encode_kv_line(out, key_entry_path_chars(), c.entry_path.as_str());
    match &c.runtime_version {
        Some(v) => {
            out = encode_kv_line(out, key_runtime_version_chars(), v.as_str());
        },
        None => {},
    }
    let ghost mid = out@;
    out = append_chars(out, &key_sandbox_chars());
    if c.sandbox_home {
        out = append_chars(out, &word_true_chars());
    } else {
        out = append_chars(out, &word_false_chars());
    }
    out.push('\n');
    assert(out@ =~= mid + spec_bool_line(c.sandbox_home) + seq!['\n']);
    match &c.cover_file {
        Some(v) => {
            out = encode_kv_line(out, key_cover_file_chars(), v.as_str());
        },
        None => {},
    }
    let ghost head = out@;
    let ghost argviews = spec_str_views(c.args@);
    let mut j: usize = 0;
    assert(argviews.skip(0) =~= argviews);
    while j < c.args.len()
        invariant
            0 <= j <= c.args@.len(),
            argviews == spec_str_views(c.args@),
            out@ + spec_args_lines(argviews.skip(j as int)) == head + spec_args_lines(argviews),
        decreases c.args@.len() - j,
    {
        assert(argviews.skip(j as int)[0] == argviews[j as int]);
        assert(argviews.skip(j as int).skip(1) =~= argviews.skip(j + 1));
        let ghost before = out@;
        out = encode_kv_line(out, key_arg_chars(), c.args[j].as_str());
        assert(before + (spec_kv_line(key_arg(), argviews[j as int]) + seq!['\n']
            + spec_args_lines(argviews.skip(j + 1))) =~= out@ + spec_args_lines(
            argviews.skip(j + 1),
        ));
        j = j + 1;
    }
    assert(argviews.skip(c.args@.len() as int) =~= Seq::<Seq<char>>::empty());
    assert(out@ + Seq::<char>::empty() =~= out@);
    assert(out@ =~= spec_encode_config(c));
    chars_string(&out)
}

/// Reads a configuration back from settings-file text. Returns the parse
/// error exactly when the text is not of the generated shape.
pub fn parse_game_config(s: &str) -> (r: Result<GameConfig, AppError>)
    ensures
        match r {
            Ok(c) => spec_parse_config(s@) == Some(
                (
                    c.engine_type@,
                    c.entry_path@,
                    spec_opt_view(c.runtime_version),
                    c.sandbox_home,
                    spec_opt_view(c.cover_file),
                    spec_str_views(c.args@),
                ),
            ),
            Err(e) => spec_parse_config(s@) is None && e is Parse,
        },
{
    let v = str_chars(s);
    let lines = split_lines(&v);
    let ghost lviews = lines@.map_values(|x: Vec<char>| x@);
    if lines.len() < 2 {
        return Err(AppError::Parse("settings file has too few lines".to_owned()));
    }
    let p_et = append_chars(key_engine_type_chars(), &key_sep_chars());
    let et = match parse_kv_line(&lines[0], &p_et) {
        Some(x) => x,
        None => {
            return Err(AppError::Parse("missing engine_type line".to_owned()));
        },
    };
    let p_ep = append_chars(key_entry_path_chars(), &key_sep_chars());
    let ep = match parse_kv_line(&lines[1], &p_ep) {
        Some(x) => x,
        None => {
            return Err(AppError::Parse("missing entry_path line".to_owned()));
        },
    };
    let p_rv = append_chars(key_runtime_version_chars(), &key_sep_chars());
    let (rv, i): (Option<Vec<char>>, usize) = if lines.len() > 2 {
        match parse_kv_line(&lines[2], &p_rv) {
            Some(x) => (Some(x), 3),
            None => (None, 2),
        }
    } else {
        (None, 2)
    };
    let (sb_present, sb): (bool, bool) = if i < lines.len() {
        match parse_bool_line(&lines[i]) {
            Some(b) => (true, b),
            None => (false, true),
        }
    } else {
        (false, true)
    };
    let j: usize = if sb_present {
        i + 1
    } else {
        i
    };
    let p_cv = append_chars(key_cover_file_chars(), &key_sep_chars());
    let (cv, k): (Option<Vec<char>>, usize) = if j < lines.len() {
        match parse_kv_line(&lines[j], &p_cv) {
            Some(x) => (Some(x), j + 1),
            None => (None, j),
        }
    } else {
        (None, j)
    };
    let runtime_version: Option<String> = match rv {
        Some(x) => Some(chars_string(&x)),
        None => None,
    };
    let cover_file: Option<String> = match cv {
        Some(x) => Some(chars_string(&x)),
        None => None,
    };
    let ghost etv = et@;
    let ghost epv = ep@;
    let ghost rvv = spec_opt_view(runtime_version);
    let ghost cvv = spec_opt_view(cover_file);
    let p_arg = append_chars(key_arg_chars(), &key_sep_chars());
    let mut args: Vec<String> = Vec::new();
    let mut j: usize = k;
    assert(spec_str_views(args@) =~= Seq::<Seq<char>>::empty());
    assert(spec_parse_config(s@) == (match spec_parse_args(lviews, k as int) {
        None => None::<(Seq<char>, Seq<char>, Option<Seq<char>>, bool, Option<Seq<char>>, Seq<Seq<char>>)>,
        Some(a) => Some((etv, epv, rvv, sb, cvv, a)),
    }));
    while j < lines.len()
        invariant
            k <= j <= lines@.len(),
            lviews == lines@.map_values(|x: Vec<char>| x@),
            p_arg@ == key_arg() + key_sep(),
            spec_parse_config(s@) == (match spec_parse_args(lviews, k as int) {
                None => None::<
                    (
                        Seq<char>,
                        Seq<char>,
                        Option<Seq<char>>,
                        bool,
                        Option<Seq<char>>,
                        Seq<Seq<char>>,
                    ),
                >,
                Some(a) => Some((etv, epv, rvv, sb, cvv, a)),
            }),
            spec_parse_args(lviews, k as int) == (match spec_parse_args(lviews, j as int) {
                None => None::<Seq<Seq<char>>>,
                Some(rest) => Some(spec_str_views(args@) + rest),
            }),
        decreases lines@.len() - j,
    {
        match parse_kv_line(&lines[j], &p_arg) {
            Some(x) => {
                let ghost before = spec_str_views(args@);
                let ghost xv = x@;
                args.push(chars_string(&x));
                assert(spec_str_views(args@) =~= before.push(xv));
                proof {
                    if spec_parse_args(lviews, j + 1) is Some {
                        assert(before + (seq![xv] + spec_parse_args(lviews, j + 1)->0)
                            =~= spec_str_views(args@) + spec_parse_args(lviews, j + 1)->0);
                    }
                }
            },
            None => {
                return Err(AppError::Parse("unrecognised settings line".to_owned()));
            },
        }
        j = j + 1;
    }
    assert(spec_parse_args(lviews, j as int) == Some(Seq::<Seq<char>>::empty()));
    assert(spec_str_views(args@) + Seq::<Seq<char>>::empty() =~= spec_str_views(args@));
    Ok(
        GameConfig {
            engine_type: chars_string(&et),
            entry_path: chars_string(&ep),
            runtime_version,
            args,
            sandbox_home: sb,
            cover_file,
        },
    )
}

// === configuration defaults and rules ===

/// The normalized engine tag of a record: a stored generic `nwjs` tag is
/// re-detected from the game directory when detection succeeds; any other
/// tag stands as stored.
pub open spec fn spec_normalized_engine(game: &Game, snap: &DirSnapshot) -> Seq<char> {
    if game.engine_type@ == "nwjs"@ && spec_detect(snap) is Some {
        spec_engine_as_str(spec_detect(snap)->0)
    } else {
        game.engine_type@
    }
}

/// Re-detects the concrete family behind a generic `nwjs` tag from the
/// game-directory snapshot; other tags pass through unchanged.
pub fn normalize_engine_type(game: &Game, snap: &DirSnapshot) -> (r: String)
    ensures
        r@ == spec_normalized_engine(game, snap),
{
    if str_eq(game.engine_type.as_str(), "nwjs") {
        match detect_engine_type(snap) {
            Some(e) => e.as_str().to_owned(),
            None => game.engine_type.clone(),
        }
    } else {
        game.engine_type.clone()
    }
}

/// The configuration created lazily on first read, when no settings file
/// exists: the record's normalized engine tag, its path as entry, its pinned
/// runtime version, no arguments, sandbox on, no cover.
pub fn default_game_config(game: &Game, snap: &DirSnapshot) -> (r: GameConfig)
    ensures
        r.engine_type@ == spec_normalized_engine(game, snap),
        r.entry_path == game.path,
        spec_opt_view(r.runtime_version) == spec_opt_view(game.runtime_version),
        r.args@.len() == 0,
        r.sandbox_home,
        r.cover_file is None,
{
    let runtime_version: Option<String> = match &game.runtime_version {
        Some(v) => Some(v.clone()),
        None => None,
    };
    GameConfig {
        engine_type: normalize_engine_type(game, snap),
        entry_path: game.path.clone(),
        runtime_version,
        args: Vec::new(),
        sandbox_home: true,
        cover_file: None,
    }
}

/// Whether the argument list already carries a user-data-dir flag, either as
/// the bare flag or with an inline value.
pub open spec fn spec_has_user_data_arg(args: Seq<Seq<char>>) -> bool {
    exists|i: int|
        0 <= i < args.len() && (#[trigger] args[i] == "--user-data-dir"@
            || "--user-data-dir="@.is_prefix_of(args[i]))
}

/// Scans an argument list for a user-data-dir flag.
pub fn has_user_data_arg(args: &Vec<String>) -> (r: bool)
    ensures
        r == spec_has_user_data_arg(spec_str_views(args@)),
{
    let flag = str_chars("--user-data-dir");
    let flag_eq = str_chars("--user-data-dir=");
    let mut i: usize = 0;
    while i < args.len()
        invariant
            0 <= i <= args@.len(),
            flag@ == "--user-data-dir"@,
            flag_eq@ == "--user-data-dir="@,
            forall|j: int|
                0 <= j < i ==> !(#[trigger] spec_str_views(args@)[j] == "--user-data-dir"@
                    || "--user-data-dir="@.is_prefix_of(spec_str_views(args@)[j])),
        decreases args@.len() - i,
    {
        let a = str_chars(args[i].as_str());
        if crate::text::chars_eq(&a, &flag) || chars_start_with(&a, &flag_eq) {
            assert(spec_str_views(args@)[i as int] == args@[i as int]@);
            return true;
        }
        assert(spec_str_views(args@)[i as int] == args@[i as int]@);
        i = i + 1;
    }
    false
}

/// Appends `--user-data-dir=<dir>` to the arguments unless one form of the
/// flag is already present.
pub fn ensure_user_data_arg(args: &mut Vec<String>, user_data_dir: &str)
    ensures
        spec_has_user_data_arg(spec_str_views(old(args)@)) ==> final (args)@ == old(args)@,
        !spec_has_user_data_arg(spec_str_views(old(args)@)) ==> {
            &&& final (args)@.len() == old(args)@.len() + 1
            &&& final (args)@.take(old(args)@.len() as int) == old(args)@
            &&& final (args)@.last()@ == "--user-data-dir="@ + user_data_dir@
        },
{
    if !has_user_data_arg(args) {
        let mut s: String = "--user-data-dir=".to_owned();
        s.append(user_data_dir);
        args.push(s);
        assert(final (args)@.take(old(args)@.len() as int) =~= old(args)@);
    }
}

/// A configuration for the `Other` family must name an explicit entry path:
/// returns the validation error exactly when the normalized tag is `other`
/// and the entry path is empty after trimming.
pub fn validate_game_settings(engine_type: &str, entry_path: &str) -> (r: Result<(), AppError>)
    ensures
        match r {
            Ok(_) => !(spec_engine_from_str(engine_type@) == EngineType::Other
                && crate::text::spec_trim(entry_path@).len() == 0),
            Err(e) => spec_engine_from_str(engine_type@) == EngineType::Other
                && crate::text::spec_trim(entry_path@).len() == 0 && e is Validation,
        },
{
    let engine = EngineType::from_str(engine_type);
    let trimmed = crate::text::trim_chars(&str_chars(entry_path));
    let requires_entry = match engine {
        EngineType::Other => true,
        _ => false,
    };
    if requires_entry && trimmed.len() == 0 {
        return Err(AppError::Validation("an entry path is required".to_owned()));
    }
    Ok(())
}

} // verus!
