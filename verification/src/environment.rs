//! The environment that Villain hands to the applications it launches, and
//! the parser of the optional environment file: literal `KEY=VALUE` data,
//! never a shell script.
use vstd::prelude::*;

use crate::config::ConfigError;
use crate::text::{
    chars_of, debug_quoted, debug_string, decimal_spec, find_char, index_of, lemma_index_of,
    lines, lines_spec, push_chars, push_decimal, push_str, string_from_chars, trim, trim_spec,
};

verus! {

/// No two entries share a key.
pub open spec fn keys_distinct(e: Seq<(String, String)>) -> bool {
    forall|i: int, j: int|
        0 <= i < e.len() && 0 <= j < e.len() && i != j ==> #[trigger] e[i].0@ != #[trigger] e[j].0@
}

/// Some entry has key `k`.
pub open spec fn has_key(e: Seq<(String, String)>, k: Seq<char>) -> bool {
    exists|i: int| 0 <= i < e.len() && #[trigger] e[i].0@ == k
}

/// The map that a list of entries with distinct keys stands for.
pub open spec fn entries_map(e: Seq<(String, String)>) -> Map<Seq<char>, Seq<char>> {
    Map::new(
        |k: Seq<char>| has_key(e, k),
        |k: Seq<char>| e[choose|i: int| 0 <= i < e.len() && #[trigger] e[i].0@ == k].1@,
    )
}

proof fn lemma_entry_value(e: Seq<(String, String)>, i: int)
    requires
        keys_distinct(e),
        0 <= i < e.len(),
    ensures
        entries_map(e).contains_key(e[i].0@),
        entries_map(e)[e[i].0@] == e[i].1@,
{
    let k = e[i].0@;
    assert(has_key(e, k));
    let j = choose|j: int| 0 <= j < e.len() && #[trigger] e[j].0@ == k;
    assert(e[j].0@ == k);
    assert(j == i);
}

/// A map from variable names to values, kept as a list with distinct keys.
#[derive(Debug)]
pub struct EnvironmentMap {
    entries: Vec<(String, String)>,
}

impl View for EnvironmentMap {
    type V = Map<Seq<char>, Seq<char>>;

    closed spec fn view(&self) -> Map<Seq<char>, Seq<char>> {
        entries_map(self.entries@)
    }
}

impl EnvironmentMap {
    #[verifier::type_invariant]
    closed spec fn inv(self) -> bool {
        keys_distinct(self.entries@)
    }

    /// An empty map.
    pub fn new() -> (m: Self)
        ensures
            m@ == Map::<Seq<char>, Seq<char>>::empty(),
    {
        let m = EnvironmentMap { entries: Vec::new() };
        assert(m@ =~= Map::<Seq<char>, Seq<char>>::empty());
        m
    }

    /// The number of variables.
    pub fn len(&self) -> (n: usize)
        ensures
            n == self@.dom().len(),
            self@.dom().finite(),
    {
        proof {
            use_type_invariant(self);
            self.lemma_dom_len();
        }
        self.entries.len()
    }

    proof fn lemma_dom_len(&self)
        requires
            keys_distinct(self.entries@),
        ensures
            self@.dom().finite(),
            self@.dom().len() == self.entries@.len(),
    {
        let e = self.entries@;
        let keys = e.map_values(|p: (String, String)| p.0@);
        assert(self@.dom() =~= keys.to_set()) by {
            assert forall|k: Seq<char>| self@.dom().contains(k) implies keys.to_set().contains(k) by {
                let i = choose|i: int| 0 <= i < e.len() && #[trigger] e[i].0@ == k;
                assert(keys[i] == k);
            }
            assert forall|k: Seq<char>| keys.to_set().contains(k) implies self@.dom().contains(k) by {
                let i = choose|i: int| 0 <= i < keys.len() && keys[i] == k;
                assert(e[i].0@ == k);
            }
        }
        assert(keys.no_duplicates()) by {
            assert forall|i: int, j: int|
                0 <= i < keys.len() && 0 <= j < keys.len() && i != j implies keys[i] != keys[j] by {
                assert(e[i].0@ != e[j].0@);
            }
        }
        keys.unique_seq_to_set();
    }

    /// Whether the map is empty.
    pub fn is_empty(&self) -> (b: bool)
        ensures
            b == (self@ == Map::<Seq<char>, Seq<char>>::empty()),
    {
        if self.entries.len() == 0 {
            assert(self@ =~= Map::<Seq<char>, Seq<char>>::empty());
            true
        } else {
            assert(self@.contains_key(self.entries@[0].0@));
            false
        }
    }

    fn position(&self, key: &String) -> (r: Option<usize>)
        ensures
            match r {
                Some(i) => i < self.entries@.len() && self.entries@[i as int].0@ == key@,
                None => !has_key(self.entries@, key@),
            },
    {
        let mut i: usize = 0;
        while i < self.entries.len()
            invariant
                i <= self.entries@.len(),
                forall|j: int| 0 <= j < i ==> self.entries@[j].0@ != key@,
            decreases self.entries@.len() - i,
        {
            if self.entries[i].0 == *key {
                return Some(i);
            }
            i = i + 1;
        }
        None
    }

    /// The value of `key`, when it is set.
    pub fn get(&self, key: &String) -> (r: Option<&String>)
        ensures
            r is Some <==> self@.contains_key(key@),
            r matches Some(v) ==> v@ == self@[key@],
    {
        proof {
            use_type_invariant(self);
        }
        match self.position(key) {
            Some(i) => {
                proof {
                    lemma_entry_value(self.entries@, i as int);
                }
                Some(&self.entries[i].1)
            },
            None => None,
        }
    }

    /// Whether `key` is set.
    pub fn contains_key(&self, key: &String) -> (b: bool)
        ensures
            b == self@.contains_key(key@),
    {
        self.get(key).is_some()
    }

    /// Set `key` to `value`, replacing any earlier value.
    pub fn insert(&mut self, key: String, value: String)
        ensures
            final(self)@ == old(self)@.insert(key@, value@),
    {
        proof {
            use_type_invariant(&*self);
        }
        let ghost old_entries = self.entries@;
        let found = self.position(&key);
        let mut entries: Vec<(String, String)> = Vec::new();
        std::mem::swap(&mut entries, &mut self.entries);
        assert(entries@ == old_entries);
        let ghost k = key@;
        let ghost v = value@;
        match found {
            Some(i) => {
                entries.set(i, (key, value));
                let ghost e = entries@;
                assert(keys_distinct(e)) by {
                    assert forall|a: int, b: int|
                        0 <= a < e.len() && 0 <= b < e.len() && a != b implies #[trigger] e[a].0@
                        != #[trigger] e[b].0@ by {
                        assert(old_entries[a].0@ != old_entries[b].0@);
                    }
                }
                assert forall|q: Seq<char>| has_key(e, q) == (has_key(old_entries, q) || q == k) by {
                    if has_key(old_entries, q) {
                        let j = choose|j: int| 0 <= j < old_entries.len() && #[trigger] old_entries[j].0@ == q;
                        assert(e[j].0@ == q);
                    }
                    if has_key(e, q) {
                        let j = choose|j: int| 0 <= j < e.len() && #[trigger] e[j].0@ == q;
                        if j != i {
                            assert(old_entries[j].0@ == q);
                        }
                    }
                    if q == k {
                        assert(e[i as int].0@ == q);
                    }
                }
                assert forall|q: Seq<char>| #[trigger] has_key(e, q) implies entries_map(e)[q]
                    == old_entries_map_insert(old_entries, k, v)[q] by {
                    let j = choose|j: int| 0 <= j < e.len() && #[trigger] e[j].0@ == q;
                    lemma_entry_value(e, j);
                    if j != i {
                        lemma_entry_value(old_entries, j);
                    }
                }
                assert(entries_map(e) =~= entries_map(old_entries).insert(k, v));
            },
            None => {
                entries.push((key, value));
                let ghost e = entries@;
                assert(keys_distinct(e)) by {
                    assert forall|a: int, b: int|
                        0 <= a < e.len() && 0 <= b < e.len() && a != b implies #[trigger] e[a].0@
                        != #[trigger] e[b].0@ by {
                        if a < old_entries.len() && b < old_entries.len() {
                            assert(old_entries[a].0@ != old_entries[b].0@);
                        } else if a < old_entries.len() {
                            assert(old_entries[a].0@ != k);
                        } else {
                            assert(old_entries[b].0@ != k);
                        }
                    }
                }
                assert forall|q: Seq<char>| has_key(e, q) == (has_key(old_entries, q) || q == k) by {
                    if has_key(old_entries, q) {
                        let j = choose|j: int| 0 <= j < old_entries.len() && #[trigger] old_entries[j].0@ == q;
                        assert(e[j].0@ == q);
                    }
                    if has_key(e, q) {
                        let j = choose|j: int| 0 <= j < e.len() && #[trigger] e[j].0@ == q;
                        if j < old_entries.len() {
                            assert(old_entries[j].0@ == q);
                        }
                    }
                    if q == k {
                        assert(e[old_entries.len() as int].0@ == q);
                    }
                }
                assert forall|q: Seq<char>| #[trigger] has_key(e, q) implies entries_map(e)[q]
                    == old_entries_map_insert(old_entries, k, v)[q] by {
                    let j = choose|j: int| 0 <= j < e.len() && #[trigger] e[j].0@ == q;
                    lemma_entry_value(e, j);
                    if j < old_entries.len() {
                        lemma_entry_value(old_entries, j);
                    }
                }
                assert(entries_map(e) =~= entries_map(old_entries).insert(k, v));
            },
        }
        self.entries = entries;
    }

    /// Unset `key`.
    pub fn remove(&mut self, key: &String)
        ensures
            final(self)@ == old(self)@.remove(key@),
    {
        proof {
            use_type_invariant(&*self);
        }
        let ghost old_entries = self.entries@;
        let found = self.position(key);
        if let Some(i) = found {
            let mut entries: Vec<(String, String)> = Vec::new();
            std::mem::swap(&mut entries, &mut self.entries);
            assert(entries@ == old_entries);
            entries.remove(i);
            let ghost e = entries@;
            let ghost k = key@;
            assert(forall|j: int| 0 <= j < i ==> e[j] == old_entries[j]);
            assert(forall|j: int| i <= j < e.len() ==> e[j] == old_entries[j + 1]);
            assert(keys_distinct(e)) by {
                assert forall|a: int, b: int|
                    0 <= a < e.len() && 0 <= b < e.len() && a != b implies #[trigger] e[a].0@
                    != #[trigger] e[b].0@ by {
                    let oa = if a < i { a } else { a + 1 };
                    let ob = if b < i { b } else { b + 1 };
                    assert(old_entries[oa].0@ != old_entries[ob].0@);
                }
            }
            assert forall|q: Seq<char>| has_key(e, q) == (has_key(old_entries, q) && q != k) by {
                if has_key(e, q) {
                    let j = choose|j: int| 0 <= j < e.len() && #[trigger] e[j].0@ == q;
                    let oj = if j < i { j } else { j + 1 };
                    assert(old_entries[oj].0@ == q);
                    assert(old_entries[i as int].0@ != old_entries[oj].0@);
                }
                if has_key(old_entries, q) && q != k {
                    let j = choose|j: int| 0 <= j < old_entries.len() && #[trigger] old_entries[j].0@ == q;
                    if j < i {
                        assert(e[j].0@ == q);
                    } else {
                        assert(j != i);
                        assert(e[j - 1].0@ == q);
                    }
                }
            }
            assert forall|q: Seq<char>| #[trigger] has_key(e, q) implies entries_map(e)[q]
                == entries_map(old_entries)[q] by {
                let j = choose|j: int| 0 <= j < e.len() && #[trigger] e[j].0@ == q;
                lemma_entry_value(e, j);
                let oj = if j < i { j } else { j + 1 };
                lemma_entry_value(old_entries, oj);
            }
            assert(entries_map(e) =~= entries_map(old_entries).remove(k));
            self.entries = entries;
        } else {
            assert(self@ =~= old(self)@.remove(key@));
        }
    }

    /// A copy with the same contents.
    pub fn copy(&self) -> (m: Self)
        ensures
            m@ == self@,
    {
        proof {
            use_type_invariant(self);
        }
        let mut entries: Vec<(String, String)> = Vec::new();
        let mut i: usize = 0;
        while i < self.entries.len()
            invariant
                i <= self.entries@.len(),
                entries@ == self.entries@.take(i as int),
            decreases self.entries@.len() - i,
        {
            let name = self.entries[i].0.clone();
            let value = self.entries[i].1.clone();
            entries.push((name, value));
            assert(entries@ =~= self.entries@.take(i + 1));
            i = i + 1;
        }
        assert(entries@ =~= self.entries@);
        EnvironmentMap { entries }
    }

    /// Every (name, value) pair, each name once.
    pub fn pairs(&self) -> (r: Vec<(String, String)>)
        ensures
            keys_distinct(r@),
            entries_map(r@) == self@,
    {
        proof {
            use_type_invariant(self);
        }
        let copy = self.copy();
        proof {
            use_type_invariant(&copy);
        }
        copy.entries
    }
}

/// A letter of the ASCII alphabet.
pub open spec fn is_ascii_alpha(c: char) -> bool {
    ('a' <= c && c <= 'z') || ('A' <= c && c <= 'Z')
}

/// An ASCII digit.
pub open spec fn is_ascii_digit(c: char) -> bool {
    '0' <= c && c <= '9'
}

/// A variable name: a letter or `_`, then letters, digits or `_`.
pub open spec fn valid_key_spec(k: Seq<char>) -> bool {
    &&& k.len() > 0
    &&& (k[0] == '_' || is_ascii_alpha(k[0]))
    &&& forall|i: int|
        1 <= i < k.len() ==> (#[trigger] k[i] == '_' || is_ascii_alpha(k[i]) || is_ascii_digit(k[i]))
}

/// Whether `key` may name an environment variable.
pub fn valid_environment_key(key: &Vec<char>) -> (b: bool)
    ensures
        b == valid_key_spec(key@),
{
    if key.len() == 0 {
        return false;
    }
    let first = key[0];
    if !(first == '_' || ('a' <= first && first <= 'z') || ('A' <= first && first <= 'Z')) {
        return false;
    }
    let mut i: usize = 1;
    while i < key.len()
        invariant
            1 <= i <= key@.len(),
            forall|j: int|
                1 <= j < i ==> (#[trigger] key@[j] == '_' || is_ascii_alpha(key@[j])
                    || is_ascii_digit(key@[j])),
        decreases key@.len() - i,
    {
        let c = key[i];
        if !(c == '_' || ('a' <= c && c <= 'z') || ('A' <= c && c <= 'Z') || ('0' <= c && c
            <= '9')) {
            return false;
        }
        i = i + 1;
    }
    true
}

pub open spec fn starts_with_char(v: Seq<char>, c: char) -> bool {
    v.len() > 0 && v[0] == c
}

pub open spec fn ends_with_char(v: Seq<char>, c: char) -> bool {
    v.len() > 0 && v.last() == c
}

/// A value without its enclosing pair of matching quotes; an unquoted value
/// is kept; a value with a quote at one end only (or a lone quote) has none.
pub open spec fn strip_quotes_spec(v: Seq<char>) -> Option<Seq<char>> {
    let dq = (starts_with_char(v, '"'), ends_with_char(v, '"'));
    let sq = (starts_with_char(v, '\''), ends_with_char(v, '\''));
    if ((dq.0 && dq.1) || (sq.0 && sq.1)) && v.len() >= 2 {
        Some(v.subrange(1, v.len() - 1))
    } else if !dq.0 && !dq.1 && !sq.0 && !sq.1 {
        Some(v)
    } else {
        None
    }
}

/// Remove one pair of matching quotes around `value`.
pub fn strip_matching_quotes(value: &Vec<char>) -> (r: Option<Vec<char>>)
    ensures
        match r {
            Some(v) => strip_quotes_spec(value@) == Some(v@),
            None => strip_quotes_spec(value@) is None,
        },
{
    let n = value.len();
    let dq0 = n > 0 && value[0] == '"';
    let dq1 = n > 0 && value[n - 1] == '"';
    let sq0 = n > 0 && value[0] == '\'';
    let sq1 = n > 0 && value[n - 1] == '\'';
    if ((dq0 && dq1) || (sq0 && sq1)) && n >= 2 {
        let mut inner: Vec<char> = Vec::new();
        let mut i: usize = 1;
        while i < n - 1
            invariant
                n == value@.len(),
                n >= 2,
                1 <= i <= n - 1,
                inner@ == value@.subrange(1, i as int),
            decreases n - 1 - i,
        {
            inner.push(value[i]);
            assert(inner@ =~= value@.subrange(1, i + 1));
            i = i + 1;
        }
        Some(inner)
    } else if !dq0 && !dq1 && !sq0 && !sq1 {
        let mut copy: Vec<char> = Vec::new();
        push_chars(&mut copy, value);
        assert(copy@ =~= value@);
        Some(copy)
    } else {
        None
    }
}

/// How one line of an environment file reads.
pub enum LineOutcome {
    /// Blank, or a `#` comment.
    Skip,
    /// A variable assignment.
    Entry(Seq<char>, Seq<char>),
    /// No `=` on the line.
    MissingEquals,
    /// The name before `=` is not a valid variable name.
    InvalidKey(Seq<char>),
    /// The value has a quote at one end only.
    UnmatchedQuotes,
}

pub open spec fn export_prefix() -> Seq<char> {
    seq!['e', 'x', 'p', 'o', 'r', 't', ' ']
}

/// A line without a leading `export `.
pub open spec fn strip_export(line: Seq<char>) -> Seq<char> {
    if line.len() >= 7 && line.take(7) == export_prefix() {
        line.skip(7)
    } else {
        line
    }
}

/// The reading of one raw line of an environment file.
pub open spec fn parse_line_spec(raw: Seq<char>) -> LineOutcome {
    let line = trim_spec(raw);
    if line.len() == 0 || line[0] == '#' {
        LineOutcome::Skip
    } else {
        let line = strip_export(line);
        let eq = index_of(line, '=');
        if eq >= line.len() {
            LineOutcome::MissingEquals
        } else {
            let key = trim_spec(line.take(eq));
            if !valid_key_spec(key) {
                LineOutcome::InvalidKey(key)
            } else {
                match strip_quotes_spec(trim_spec(line.skip(eq + 1))) {
                    Some(value) => LineOutcome::Entry(key, value),
                    None => LineOutcome::UnmatchedQuotes,
                }
            }
        }
    }
}

pub open spec fn is_error(o: LineOutcome) -> bool {
    !(o is Skip || o is Entry)
}

/// The index of the first line that does not read, or the number of lines.
pub open spec fn first_error(lines: Seq<Seq<char>>) -> int
    decreases lines.len(),
{
    if lines.len() == 0 {
        0
    } else if is_error(parse_line_spec(lines[0])) {
        0
    } else {
        1 + first_error(lines.drop_first())
    }
}

proof fn lemma_first_error(lines: Seq<Seq<char>>)
    ensures
        0 <= first_error(lines) <= lines.len(),
        first_error(lines) < lines.len() ==> is_error(parse_line_spec(lines[first_error(lines)])),
        forall|j: int| 0 <= j < first_error(lines) ==> !is_error(#[trigger] parse_line_spec(lines[j])),
    decreases lines.len(),
{
    if lines.len() > 0 && !is_error(parse_line_spec(lines[0])) {
        lemma_first_error(lines.drop_first());
        assert forall|j: int| 0 <= j < first_error(lines) implies !is_error(
            #[trigger] parse_line_spec(lines[j]),
        ) by {
            if j > 0 {
                assert(lines[j] == lines.drop_first()[j - 1]);
            }
        }
    }
}

/// `m` after the assignments on the first `n` lines.
pub open spec fn env_after(lines: Seq<Seq<char>>, m: Map<Seq<char>, Seq<char>>, n: nat) -> Map<
    Seq<char>,
    Seq<char>,
>
    decreases n,
{
    if n == 0 {
        m
    } else {
        let prev = env_after(lines, m, (n - 1) as nat);
        match parse_line_spec(lines[n - 1]) {
            LineOutcome::Entry(k, v) => prev.insert(k, v),
            _ => prev,
        }
    }
}

/// The message for a line that does not read; lines are numbered from one.
pub open spec fn line_error_message(path: Seq<char>, index: int, o: LineOutcome) -> Seq<char> {
    let head = path + seq![':'] + decimal_spec((index + 1) as nat) + seq![':', ' '];
    match o {
        LineOutcome::MissingEquals => head + "expected KEY=VALUE"@,
        LineOutcome::InvalidKey(k) => head + "invalid environment variable name "@ + debug_quoted(k),
        _ => head + "environment value has unmatched quotes"@,
    }
}

/// The outcome of parsing environment-file `contents` into a map that held
/// `m`: the map after every line, or the message of the first bad line with
/// the map as it stood after the lines before it.
pub open spec fn parse_environment_spec(
    contents: Seq<char>,
    path: Seq<char>,
    m: Map<Seq<char>, Seq<char>>,
) -> (Map<Seq<char>, Seq<char>>, Option<Seq<char>>) {
    let ls = lines_spec(contents);
    let e = first_error(ls);
    if e >= ls.len() {
        (env_after(ls, m, ls.len()), None)
    } else {
        (env_after(ls, m, e as nat), Some(line_error_message(path, e, parse_line_spec(ls[e]))))
    }
}

/// The executable reading of one line.
pub enum ParsedLine {
    Skip,
    Entry(Vec<char>, Vec<char>),
    MissingEquals,
    InvalidKey(Vec<char>),
    UnmatchedQuotes,
}

impl View for ParsedLine {
    type V = LineOutcome;

    open spec fn view(&self) -> LineOutcome {
        match self {
            ParsedLine::Skip => LineOutcome::Skip,
            ParsedLine::Entry(k, v) => LineOutcome::Entry(k@, v@),
            ParsedLine::MissingEquals => LineOutcome::MissingEquals,
            ParsedLine::InvalidKey(k) => LineOutcome::InvalidKey(k@),
            ParsedLine::UnmatchedQuotes => LineOutcome::UnmatchedQuotes,
        }
    }
}

/// Read one line of an environment file.
pub fn parse_line(raw: &Vec<char>) -> (r: ParsedLine)
    ensures
        r@ == parse_line_spec(raw@),
{
    assert(raw@.subrange(0, raw@.len() as int) =~= raw@);
    let line = trim(raw, 0, raw.len());
    if line.len() == 0 || line[0] == '#' {
        return ParsedLine::Skip;
    }
    let is_export = line.len() >= 7 && line[0] == 'e' && line[1] == 'x' && line[2] == 'p'
        && line[3] == 'o' && line[4] == 'r' && line[5] == 't' && line[6] == ' ';
    assert(is_export == (line@.len() >= 7 && line@.take(7) == export_prefix())) by {
        if line@.len() >= 7 && line@.take(7) == export_prefix() {
            assert(line@.take(7)[0] == 'e');
            assert(line@.take(7)[6] == ' ');
        }
        if is_export {
            assert(line@.take(7) =~= export_prefix());
        }
    }
    let start: usize = if is_export {
        7
    } else {
        0
    };
    let ghost stripped = strip_export(line@);
    assert(stripped =~= line@.skip(start as int));
    let eq = find_char(&line, start, '=');
    proof {
        lemma_index_of(stripped, '=');
    }
    if eq >= line.len() {
        return ParsedLine::MissingEquals;
    }
    let ghost at = eq - start;
    assert(stripped.take(at) =~= line@.subrange(start as int, eq as int));
    assert(stripped.skip(at + 1) =~= line@.subrange(eq + 1, line@.len() as int));
    let key = trim(&line, start, eq);
    if !valid_environment_key(&key) {
        return ParsedLine::InvalidKey(key);
    }
    let value = trim(&line, eq + 1, line.len());
    match strip_matching_quotes(&value) {
        Some(v) => ParsedLine::Entry(key, v),
        None => ParsedLine::UnmatchedQuotes,
    }
}

fn line_error(path: &str, index: usize, outcome: &ParsedLine) -> (e: ConfigError)
    requires
        is_error(outcome@),
        index < usize::MAX,
    ensures
        e.0@ == line_error_message(path@, index as int, outcome@),
{
    let mut text: Vec<char> = Vec::new();
    push_str(&mut text, path);
    text.push(':');
    push_decimal(&mut text, (index + 1) as u64);
    text.push(':');
    text.push(' ');
    let ghost head = text@;
    match outcome {
        ParsedLine::MissingEquals => push_str(&mut text, "expected KEY=VALUE"),
        ParsedLine::InvalidKey(key) => {
            push_str(&mut text, "invalid environment variable name ");
            let quoted = debug_string(key);
            push_chars(&mut text, &quoted);
        },
        _ => push_str(&mut text, "environment value has unmatched quotes"),
    }
    ConfigError(string_from_chars(&text))
}

/// Parse environment-file `contents` into `output`. `path` names the file
/// in messages. Lines are trimmed; blank lines and `#` comments are skipped;
/// a leading `export ` is ignored; the name before the first `=` must be a
/// valid variable name and the value may be wrapped in one pair of matching
/// quotes, which are removed. Nothing is expanded. On the first bad line the
/// error names the file and line, and `output` keeps what the earlier lines
/// set.
pub fn parse_environment(contents: &str, path: &str, output: &mut EnvironmentMap) -> (r: Result<
    (),
    ConfigError,
>)
    ensures
        ({
            let (m, err) = parse_environment_spec(contents@, path@, old(output)@);
            &&& final(output)@ == m
            &&& match err {
                None => r is Ok,
                Some(msg) => r matches Err(e) && e.0@ == msg,
            }
        }),
{
    let text = chars_of(contents);
    let all = lines(&text);
    let ghost ls = lines_spec(contents@);
    let ghost start = output@;
    proof {
        lemma_first_error(ls);
    }
    let mut index: usize = 0;
    while index < all.len()
        invariant
            ls == lines_spec(contents@),
            start == old(output)@,
            all@.len() == ls.len(),
            forall|k: int| 0 <= k < all@.len() ==> #[trigger] all@[k]@ == ls[k],
            index <= all@.len(),
            index <= first_error(ls),
            output@ == env_after(ls, start, index as nat),
            0 <= first_error(ls) <= ls.len(),
            first_error(ls) < ls.len() ==> is_error(parse_line_spec(ls[first_error(ls)])),
            forall|j: int| 0 <= j < first_error(ls) ==> !is_error(#[trigger] parse_line_spec(ls[j])),
        decreases all@.len() - index,
    {
        let parsed = parse_line(&all[index]);
        assert(parsed@ == parse_line_spec(ls[index as int]));
        match &parsed {
            ParsedLine::Skip => {},
            ParsedLine::Entry(key, value) => {
                output.insert(string_from_chars(key), string_from_chars(value));
            },
            _ => {
                assert(is_error(parsed@));
                assert(first_error(ls) == index);
                let e = line_error(path, index, &parsed);
                assert(e.0@ == line_error_message(path@, first_error(ls), parse_line_spec(ls[first_error(ls)])));
                return Err(e);
            },
        }
        index = index + 1;
    }
    Ok(())
}

/// The environment every session starts from: Wayland-native toolkits.
pub open spec fn default_environment_spec() -> Map<Seq<char>, Seq<char>> {
    Map::empty().insert("XDG_SESSION_TYPE"@, "wayland"@).insert(
        "XDG_CURRENT_DESKTOP"@,
        "Villain"@,
    ).insert("XDG_SESSION_DESKTOP"@, "villain"@).insert(
        "ELECTRON_OZONE_PLATFORM_HINT"@,
        "wayland"@,
    ).insert("MOZ_ENABLE_WAYLAND"@, "1"@).insert("QT_QPA_PLATFORM"@, "wayland"@).insert(
        "GDK_BACKEND"@,
        "wayland"@,
    )
}

fn put(m: &mut EnvironmentMap, key: &str, value: &str)
    ensures
        final(m)@ == old(m)@.insert(key@, value@),
{
    m.insert(key.to_owned(), value.to_owned());
}

/// The environment that Villain starts every session with.
pub fn default_environment() -> (m: EnvironmentMap)
    ensures
        m@ == default_environment_spec(),
{
    let mut m = EnvironmentMap::new();
    put(&mut m, "XDG_SESSION_TYPE", "wayland");
    put(&mut m, "XDG_CURRENT_DESKTOP", "Villain");
    put(&mut m, "XDG_SESSION_DESKTOP", "villain");
    put(&mut m, "ELECTRON_OZONE_PLATFORM_HINT", "wayland");
    put(&mut m, "MOZ_ENABLE_WAYLAND", "1");
    put(&mut m, "QT_QPA_PLATFORM", "wayland");
    put(&mut m, "GDK_BACKEND", "wayland");
    m
}

spec fn old_entries_map_insert(e: Seq<(String, String)>, k: Seq<char>, v: Seq<char>) -> Map<
    Seq<char>,
    Seq<char>,
> {
    entries_map(e).insert(k, v)
}

} // verus!
