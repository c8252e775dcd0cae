//! The interface-enumeration boundary: an abstract provider of interface
//! names, with a scripted double for tests.

use vstd::prelude::*;
use vstd::string::StrSliceExecFns;
use vstd::string::StringExecFns;

use crate::error::InterfaceError;

verus! {

/// An ASCII whitespace character, as the trimming step understands it.
pub open spec fn is_space_char(c: char) -> bool {
    c == ' ' || c == '\t' || c == '\n' || c == '\u{c}' || c == '\r'
}

/// `s` without its leading whitespace.
pub open spec fn trim_start_spec(s: Seq<char>) -> Seq<char>
    decreases s.len(),
{
    if s.len() > 0 && is_space_char(s[0]) {
        trim_start_spec(s.skip(1))
    } else {
        s
    }
}

/// `s` without its trailing whitespace.
pub open spec fn trim_end_spec(s: Seq<char>) -> Seq<char>
    decreases s.len(),
{
    if s.len() > 0 && is_space_char(s.last()) {
        trim_end_spec(s.drop_last())
    } else {
        s
    }
}

/// `s` without whitespace at either end.
pub open spec fn trimmed(s: Seq<char>) -> Seq<char> {
    trim_end_spec(trim_start_spec(s))
}

/// The index of the first occurrence of `c` in `s`, or `s.len()` if none.
pub open spec fn find_char(s: Seq<char>, c: char) -> int
    decreases s.len(),
{
    if s.len() == 0 {
        0
    } else if s[0] == c {
        0
    } else {
        1 + find_char(s.skip(1), c)
    }
}

/// The token a line contributes: everything before its first `:`, or the
/// whole line if it has none.
pub open spec fn token_of(line: Seq<char>) -> Seq<char> {
    line.take(find_char(line, ':'))
}

/// A finished line without its trailing carriage return, if it has one.
pub open spec fn strip_cr(line: Seq<char>) -> Seq<char> {
    if line.len() > 0 && line.last() == '\r' {
        line.drop_last()
    } else {
        line
    }
}

/// The lines of `rest`, given that `cur` has been read of the current line so
/// far: lines end at `\n` (a `\r` just before it is not part of the line),
/// and a final line ending is optional.
pub open spec fn split_lines_from(rest: Seq<char>, cur: Seq<char>) -> Seq<Seq<char>>
    decreases rest.len(),
{
    if rest.len() == 0 {
        if cur.len() == 0 {
            Seq::empty()
        } else {
            seq![cur]
        }
    } else if rest[0] == '\n' {
        seq![strip_cr(cur)] + split_lines_from(rest.skip(1), Seq::empty())
    } else {
        split_lines_from(rest.skip(1), cur.push(rest[0]))
    }
}

/// The lines of `s`.
pub open spec fn split_lines(s: Seq<char>) -> Seq<Seq<char>> {
    split_lines_from(s, Seq::empty())
}

/// The interface names in a network-device table: every line after the
/// two-line header contributes the token before its first `:`, trimmed.
pub open spec fn interface_names(content: Seq<char>) -> Seq<Seq<char>> {
    let ls = split_lines(content);
    if ls.len() <= 2 {
        Seq::empty()
    } else {
        ls.skip(2).map_values(|l: Seq<char>| trimmed(token_of(l)))
    }
}

proof fn lemma_find_char_is(s: Seq<char>, c: char, i: int)
    requires
        0 <= i <= s.len(),
        forall|j: int| 0 <= j < i ==> s[j] != c,
        i < s.len() ==> s[i] == c,
    ensures
        find_char(s, c) == i,
    decreases i,
{
    if i == 0 {
    } else {
        assert(s[0] != c);
        lemma_find_char_is(s.skip(1), c, i - 1);
    }
}

proof fn lemma_trim_start_skip(s: Seq<char>, a: int)
    requires
        0 <= a <= s.len(),
        forall|j: int| 0 <= j < a ==> is_space_char(s[j]),
        a < s.len() ==> !is_space_char(s[a]),
    ensures
        trim_start_spec(s) == s.skip(a),
    decreases a,
{
    if a == 0 {
        assert(s.skip(0) =~= s);
    } else {
        lemma_trim_start_skip(s.skip(1), a - 1);
        assert(s.skip(1).skip(a - 1) =~= s.skip(a));
    }
}

proof fn lemma_trim_end_take(s: Seq<char>, b: int)
    requires
        0 <= b <= s.len(),
        forall|j: int| b <= j < s.len() ==> is_space_char(s[j]),
        b > 0 ==> !is_space_char(s[b - 1]),
    ensures
        trim_end_spec(s) == s.take(b),
    decreases s.len(),
{
    if b == s.len() {
        assert(s.take(b) =~= s);
    } else {
        assert(is_space_char(s.last()));
        lemma_trim_end_take(s.drop_last(), b);
        assert(s.drop_last().take(b) =~= s.take(b));
    }
}

/// True exactly when `c` counts as whitespace for trimming.
fn is_space(c: char) -> (r: bool)
    ensures
        r == is_space_char(c),
{
    c == ' ' || c == '\t' || c == '\n' || c == '\u{c}' || c == '\r'
}

/// The name one table line contributes: the token before its first `:`,
/// trimmed of surrounding whitespace.
fn extract_name(line: &str) -> (r: String)
    ensures
        r@ == trimmed(token_of(line@)),
{
    let len = line.unicode_len();
    let mut t: usize = 0;
    while t < len && line.get_char(t) != ':'
        invariant
            t <= len,
            len == line@.len(),
            forall|j: int| 0 <= j < t ==> line@[j] != ':',
        decreases len - t,
    {
        t = t + 1;
    }
    proof {
        lemma_find_char_is(line@, ':', t as int);
    }
    let mut a: usize = 0;
    while a < t && is_space(line.get_char(a))
        invariant
            a <= t <= len,
            len == line@.len(),
            forall|j: int| 0 <= j < a ==> is_space_char(line@[j]),
        decreases t - a,
    {
        a = a + 1;
    }
    let mut b: usize = t;
    while b > a && is_space(line.get_char(b - 1))
        invariant
            a <= b <= t <= len,
            len == line@.len(),
            forall|j: int| b <= j < t ==> is_space_char(line@[j]),
        decreases b,
    {
        b = b - 1;
    }
    let name = line.substring_char(a, b).to_owned();
    proof {
        let token = token_of(line@);
        assert(token =~= line@.take(t as int));
        lemma_trim_start_skip(token, a as int);
        lemma_trim_end_take(token.skip(a as int), b - a);
        assert(name@ =~= trimmed(token_of(line@)));
    }
    name
}

/// The lines of `content`, as `split_lines` describes them.
pub fn split_lines_exec(content: &str) -> (r: Vec<String>)
    ensures
        r.deep_view() == split_lines(content@),
{
    let n = content.unicode_len();
    let mut out: Vec<String> = Vec::new();
    let ghost mut done: Seq<Seq<char>> = Seq::empty();
    let mut start: usize = 0;
    let mut pos: usize = 0;
    proof {
        assert(content@.skip(0) =~= content@);
        assert(content@.subrange(0, 0) =~= Seq::<char>::empty());
        assert(done + split_lines_from(content@, Seq::empty()) =~= split_lines_from(
            content@,
            Seq::empty(),
        ));
    }
    while pos < n
        invariant
            start <= pos <= n,
            n == content@.len(),
            out@.len() == done.len(),
            forall|j: int| #![auto] 0 <= j < done.len() ==> out@[j]@ == done[j],
            split_lines(content@) == done + split_lines_from(
                content@.skip(pos as int),
                content@.subrange(start as int, pos as int),
            ),
        decreases n - pos,
    {
        let ghost rest = content@.skip(pos as int);
        let ghost cur = content@.subrange(start as int, pos as int);
        proof {
            assert(rest.len() == n - pos);
            assert(rest[0] == content@[pos as int]);
        }
        let c = content.get_char(pos);
        if c == '\n' {
            let line_end = if pos > start && content.get_char(pos - 1) == '\r' {
                pos - 1
            } else {
                pos
            };
            let line = content.substring_char(start, line_end).to_owned();
            proof {
                assert(strip_cr(cur) =~= content@.subrange(start as int, line_end as int));
                assert(line@ == strip_cr(cur));
                assert(rest.skip(1) =~= content@.skip(pos as int + 1));
                assert(split_lines_from(rest, cur) == seq![strip_cr(cur)] + split_lines_from(
                    content@.skip(pos as int + 1),
                    Seq::empty(),
                ));
                assert(done + (seq![strip_cr(cur)] + split_lines_from(
                    content@.skip(pos as int + 1),
                    Seq::empty(),
                )) =~= done.push(line@) + split_lines_from(
                    content@.skip(pos as int + 1),
                    Seq::empty(),
                ));
                done = done.push(line@);
                assert(content@.subrange(pos as int + 1, pos as int + 1) =~= Seq::<char>::empty());
            }
            out.push(line);
            start = pos + 1;
        } else {
            proof {
                assert(rest.skip(1) =~= content@.skip(pos as int + 1));
                assert(cur.push(c) =~= content@.subrange(start as int, pos as int + 1));
                assert(split_lines_from(rest, cur) == split_lines_from(
                    content@.skip(pos as int + 1),
                    content@.subrange(start as int, pos as int + 1),
                ));
            }
        }
        pos = pos + 1;
    }
    let ghost tail = content@.subrange(start as int, n as int);
    proof {
        assert(content@.skip(n as int) =~= Seq::<char>::empty());
    }
    if start < n {
        let line = content.substring_char(start, n).to_owned();
        proof {
            assert(split_lines_from(Seq::empty(), tail) == seq![tail]);
            assert(done + seq![tail] =~= done.push(line@));
            done = done.push(line@);
        }
        out.push(line);
    } else {
        proof {
            assert(tail =~= Seq::<char>::empty());
            assert(split_lines_from(Seq::empty(), tail) =~= Seq::<Seq<char>>::empty());
            assert(done + split_lines_from(Seq::empty(), tail) =~= done);
        }
    }
    proof {
        assert(out.deep_view() =~= done);
    }
    out
}

/// Parse a network-device accounting table: skip the two header lines and
/// take from each remaining line the token before its `:`, trimmed.
pub fn parse_interfaces(content: &str) -> (r: Vec<String>)
    ensures
        r.deep_view() == interface_names(content@),
{
    let lines = split_lines_exec(content);
    let mut out: Vec<String> = Vec::new();
    if lines.len() <= 2 {
        proof {
            assert(out.deep_view() =~= interface_names(content@));
        }
        return out;
    }
    let mut i: usize = 2;
    while i < lines.len()
        invariant
            2 <= i <= lines@.len(),
            lines.deep_view() == split_lines(content@),
            out@.len() == i - 2,
            forall|j: int| #![auto]
                0 <= j < i - 2 ==> out@[j]@ == trimmed(token_of(lines.deep_view()[j + 2])),
        decreases lines@.len() - i,
    {
        let name = extract_name(lines[i].as_str());
        proof {
            assert(lines[i as int]@ == lines.deep_view()[i as int]);
        }
        out.push(name);
        i = i + 1;
    }
    proof {
        assert(out.deep_view() =~= interface_names(content@));
    }
    out
}

/// Enumerates the network interfaces available to capture on.
///
/// `fails()` says whether enumeration fails; `names()` is the list it yields
/// otherwise, in enumeration order. `list_interfaces` returns exactly that
/// list, or an error exactly when enumeration fails.
pub trait InterfaceProvider {
    spec fn fails(&self) -> bool;

    spec fn names(&self) -> Seq<Seq<char>>;

    fn list_interfaces(&self) -> (r: Result<Vec<String>, InterfaceError>)
        ensures
            r is Ok <==> !self.fails(),
            r matches Ok(v) ==> v.deep_view() == self.names(),
    ;
}

/// A scripted provider for tests: yields a fixed list, or a fixed failure.
pub struct MockInterfaceProvider {
    interfaces: Vec<String>,
    should_fail: bool,
}

impl MockInterfaceProvider {
    /// A provider that yields exactly `interfaces`.
    pub fn new(interfaces: Vec<String>) -> (r: MockInterfaceProvider)
        ensures
            !r.fails(),
            r.names() == interfaces.deep_view(),
    {
        MockInterfaceProvider { interfaces, should_fail: false }
    }

    /// A provider whose enumeration always fails.
    pub fn failing() -> (r: MockInterfaceProvider)
        ensures
            r.fails(),
    {
        MockInterfaceProvider { interfaces: Vec::new(), should_fail: true }
    }
}

impl InterfaceProvider for MockInterfaceProvider {
    closed spec fn fails(&self) -> bool {
        self.should_fail
    }

    closed spec fn names(&self) -> Seq<Seq<char>> {
        self.interfaces.deep_view()
    }

    fn list_interfaces(&self) -> (r: Result<Vec<String>, InterfaceError>) {
        if self.should_fail {
            Err(InterfaceError::Io(String::from_str("mock failure")))
        } else {
            let mut out: Vec<String> = Vec::new();
            let mut i: usize = 0;
            while i < self.interfaces.len()
                invariant
                    i <= self.interfaces@.len(),
                    out@.len() == i,
                    forall|j: int| #![auto] 0 <= j < i ==> out@[j]@ == self.interfaces@[j]@,
                decreases self.interfaces@.len() - i,
            {
                let name = self.interfaces[i].clone();
                out.push(name);
                i = i + 1;
            }
            proof {
                assert(out.deep_view() =~= self.interfaces.deep_view());
            }
            Ok(out)
        }
    }
}

} // verus!
