use vstd::prelude::*;
use vstd::string::*;
use crate::package::{Date, Package};
use crate::text::{is_ws, to_chars, trim, trim_left, trim_right, trim_str};

verus! {

broadcast use vstd::string::group_string_axioms;

/// One declared dependency: a package name and the version pinned for it.
#[derive(Debug)]
pub struct DependencyRef {
    pub name: String,
    pub version: String,
}

/// Why a manifest could not be turned into dependencies.
#[derive(Debug, Clone, Copy, PartialEq, Eq, Structural)]
pub enum ParseError {
    /// No line of the manifest declares a dependency.
    NoDependencies,
}

/// The two-character separator `==` starts at index `k` of `s`.
pub open spec fn sep_at(s: Seq<char>, k: int) -> bool {
    0 <= k && k + 1 < s.len() && s[k] == '=' && s[k + 1] == '='
}

/// The first index at or after `k` where the separator starts, or -1.
pub open spec fn first_sep(s: Seq<char>, k: int) -> int
    decreases s.len() - k,
{
    if k < 0 || k + 1 >= s.len() {
        -1
    } else if sep_at(s, k) {
        k
    } else {
        first_sep(s, k + 1)
    }
}

/// What one manifest line declares: the trimmed line must not be empty nor
/// a `#` comment, must split on `==` into exactly two parts, and both parts,
/// trimmed, must be non-empty.
pub open spec fn parse_line(line: Seq<char>) -> Option<(Seq<char>, Seq<char>)> {
    let t = trim(line);
    if t.len() == 0 || t[0] == '#' {
        None
    } else {
        let i = first_sep(t, 0);
        if i < 0 || first_sep(t, i + 2) >= 0 {
            None
        } else {
            let name = trim(t.subrange(0, i));
            let version = trim(t.subrange(i + 2, t.len() as int));
            if name.len() == 0 || version.len() == 0 {
                None
            } else {
                Some((name, version))
            }
        }
    }
}

/// The index of the first `'\n'` at or after `k`, or the length of `s`.
pub open spec fn next_newline(s: Seq<char>, k: int) -> int
    decreases s.len() - k,
{
    if k < 0 || k >= s.len() {
        s.len() as int
    } else if s[k] == '\n' {
        k
    } else {
        next_newline(s, k + 1)
    }
}

pub open spec fn opt_to_seq<T>(o: Option<T>) -> Seq<T> {
    match o {
        Some(x) => seq![x],
        None => Seq::empty(),
    }
}

/// The dependencies declared by the lines of `s` that start at or after `k`,
/// lines being separated by `'\n'`.
pub open spec fn deps_from(s: Seq<char>, k: int) -> Seq<(Seq<char>, Seq<char>)>
    decreases s.len() - k,
{
    let e = next_newline(s, k);
    if k < 0 || k > s.len() || e < k {
        Seq::empty()
    } else {
        let here = opt_to_seq(parse_line(s.subrange(k, e)));
        if e >= s.len() {
            here
        } else {
            here + deps_from(s, e + 1)
        }
    }
}

/// The dependencies declared in a manifest text, in line order.
pub open spec fn manifest_deps(s: Seq<char>) -> Seq<(Seq<char>, Seq<char>)> {
    deps_from(s, 0)
}

pub open spec fn dep_view(d: DependencyRef) -> (Seq<char>, Seq<char>) {
    (d.name@, d.version@)
}

pub open spec fn deps_view(v: Seq<DependencyRef>) -> Seq<(Seq<char>, Seq<char>)> {
    v.map_values(|d: DependencyRef| dep_view(d))
}

proof fn lemma_next_newline(s: Seq<char>, k: int)
    requires
        0 <= k <= s.len(),
    ensures
        k <= next_newline(s, k) <= s.len(),
        forall|j: int| k <= j < next_newline(s, k) ==> s[j] != '\n',
        next_newline(s, k) < s.len() ==> s[next_newline(s, k)] == '\n',
    decreases s.len() - k,
{
    if k < s.len() && s[k] != '\n' {
        lemma_next_newline(s, k + 1);
    }
}

fn find_sep(v: &Vec<char>, k: usize) -> (r: Option<usize>)
    ensures
        match r {
            Some(i) => i as int == first_sep(v@, k as int) && i >= k && i + 1 < v@.len(),
            None => first_sep(v@, k as int) < 0,
        },
{
    let mut j: usize = k;
    while j < v.len() && j + 1 < v.len()
        invariant
            k <= j,
            first_sep(v@, k as int) == first_sep(v@, j as int),
        decreases v.len() - j,
    {
        if v[j] == '=' && v[j + 1] == '=' {
            return Some(j);
        }
        j = j + 1;
    }
    None
}

/// The name and version declared by one manifest line, both trimmed, if the
/// line declares a dependency.
pub fn parse_dependency_line(line: &str) -> (r: Option<(String, String)>)
    ensures
        match r {
            Some((n, v)) => parse_line(line@) == Some((n@, v@)),
            None => parse_line(line@) is None,
        },
{
    let t = trim_str(line);
    let tv = to_chars(t);
    if tv.len() == 0 || tv[0] == '#' {
        return None;
    }
    match find_sep(&tv, 0) {
        None => None,
        Some(i) => {
            if find_sep(&tv, i + 2).is_some() {
                return None;
            }
            let name = trim_str(t.substring_char(0, i));
            let version = trim_str(t.substring_char(i + 2, tv.len()));
            if name.unicode_len() == 0 || version.unicode_len() == 0 {
                return None;
            }
            Some((name.to_owned(), version.to_owned()))
        },
    }
}

/// Every dependency declared in a manifest text, one per matching line, in
/// line order.
pub fn manifest_dependencies(content: &str) -> (r: Vec<DependencyRef>)
    ensures
        deps_view(r@) == manifest_deps(content@),
{
    let v = to_chars(content);
    let n = v.len();
    let mut out: Vec<DependencyRef> = Vec::new();
    let mut start: usize = 0;
    let mut i: usize = 0;
    while i < n
        invariant
            n == v@.len(),
            v@ == content@,
            start <= i <= n,
            forall|j: int| start <= j < i ==> v@[j] != '\n',
            deps_view(out@) + deps_from(v@, start as int) == manifest_deps(v@),
        decreases n - i,
    {
        if v[i] == '\n' {
            proof {
                lemma_next_newline(v@, start as int);
                if next_newline(v@, start as int) < i {
                    assert(v@[next_newline(v@, start as int)] == '\n');
                }
            }
            assert(next_newline(v@, start as int) == i);
            let line = content.substring_char(start, i);
            let parsed = parse_dependency_line(line);
            let ghost old_out = out@;
            match parsed {
                Some((name, version)) => {
                    out.push(DependencyRef { name, version });
                },
                None => {},
            }
            assert(deps_view(out@) =~= deps_view(old_out) + opt_to_seq(
                parse_line(v@.subrange(start as int, i as int)),
            ));
            assert(deps_view(out@) + deps_from(v@, i + 1) =~= manifest_deps(v@));
            start = i + 1;
        }
        i = i + 1;
    }
    proof {
        lemma_next_newline(v@, start as int);
        if next_newline(v@, start as int) < n {
            assert(v@[next_newline(v@, start as int)] == '\n');
        }
    }
    let line = content.substring_char(start, n);
    let parsed = parse_dependency_line(line);
    let ghost old_out = out@;
    match parsed {
        Some((name, version)) => {
            out.push(DependencyRef { name, version });
        },
        None => {},
    }
    assert(deps_view(out@) =~= deps_view(old_out) + opt_to_seq(
        parse_line(v@.subrange(start as int, n as int)),
    ));
    out
}

pub open spec fn all_ws(p: Seq<char>) -> bool {
    forall|i: int| 0 <= i < p.len() ==> is_ws(#[trigger] p[i])
}

pub open spec fn lacks(s: Seq<char>, c: char) -> bool {
    forall|i: int| 0 <= i < s.len() ==> #[trigger] s[i] != c
}

proof fn lemma_trim_left_pad(p: Seq<char>, x: Seq<char>)
    requires
        all_ws(p),
    ensures
        trim_left(p + x) == trim_left(x),
    decreases p.len(),
{
    if p.len() > 0 {
        assert((p + x).drop_first() =~= p.drop_first() + x);
        assert(is_ws(p[0]));
        lemma_trim_left_pad(p.drop_first(), x);
    } else {
        assert(p + x =~= x);
    }
}

proof fn lemma_trim_right_pad(x: Seq<char>, p: Seq<char>)
    requires
        all_ws(p),
    ensures
        trim_right(x + p) == trim_right(x),
    decreases p.len(),
{
    if p.len() > 0 {
        assert((x + p).drop_last() =~= x + p.drop_last());
        assert(is_ws(p.last()));
        lemma_trim_right_pad(x, p.drop_last());
    } else {
        assert(x + p =~= x);
    }
}

proof fn lemma_first_sep_at(s: Seq<char>, k: int, j: int)
    requires
        0 <= k <= j,
        sep_at(s, j),
        forall|i: int| k <= i < j ==> #[trigger] s[i] != '=',
    ensures
        first_sep(s, k) == j,
    decreases j - k,
{
    if k < j {
        lemma_first_sep_at(s, k + 1, j);
    }
}

proof fn lemma_first_sep_none(s: Seq<char>, k: int)
    requires
        0 <= k,
        forall|i: int| k <= i < s.len() ==> !#[trigger] sep_at(s, i),
    ensures
        first_sep(s, k) < 0,
    decreases s.len() - k,
{
    if k + 1 < s.len() {
        lemma_first_sep_none(s, k + 1);
    }
}

proof fn lemma_trim_is_slice(s: Seq<char>)
    ensures
        exists|a: int, b: int| 0 <= a <= b <= s.len() && trim(s) == s.subrange(a, b),
{
    lemma_trim_left_slice(s);
    let a = choose|a: int| 0 <= a <= s.len() && trim_left(s) == s.subrange(a, s.len() as int);
    let l = trim_left(s);
    lemma_trim_right_slice(l);
    let b = choose|b: int| 0 <= b <= l.len() && trim_right(l) == l.subrange(0, b);
    assert(trim(s) =~= s.subrange(a, a + b));
}

proof fn lemma_trim_left_slice(s: Seq<char>)
    ensures
        exists|a: int| 0 <= a <= s.len() && trim_left(s) == s.subrange(a, s.len() as int),
    decreases s.len(),
{
    if s.len() > 0 && is_ws(s[0]) {
        lemma_trim_left_slice(s.drop_first());
        let a = choose|a: int|
            0 <= a <= s.drop_first().len() && trim_left(s.drop_first()) == s.drop_first().subrange(
                a,
                s.drop_first().len() as int,
            );
        assert(s.drop_first().subrange(a, s.drop_first().len() as int) =~= s.subrange(
            a + 1,
            s.len() as int,
        ));
    } else {
        assert(s.subrange(0, s.len() as int) =~= s);
    }
}

proof fn lemma_trim_right_slice(s: Seq<char>)
    ensures
        exists|b: int| 0 <= b <= s.len() && trim_right(s) == s.subrange(0, b),
    decreases s.len(),
{
    if s.len() > 0 && is_ws(s.last()) {
        lemma_trim_right_slice(s.drop_last());
        let b = choose|b: int|
            0 <= b <= s.drop_last().len() && trim_right(s.drop_last()) == s.drop_last().subrange(
                0,
                b,
            );
        assert(s.drop_last().subrange(0, b) =~= s.subrange(0, b));
    } else {
        assert(s.subrange(0, s.len() as int) =~= s);
    }
}

proof fn lemma_single_line(line: Seq<char>)
    requires
        lacks(line, '\n'),
    ensures
        manifest_deps(line) == opt_to_seq(parse_line(line)),
{
    lemma_next_newline(line, 0);
    if next_newline(line, 0) < line.len() {
        assert(line[next_newline(line, 0)] == '\n');
    }
    assert(line.subrange(0, line.len() as int) =~= line);
}

/// A manifest line that declares one dependency, with any whitespace around
/// the name and around the version, yields exactly that one dependency, with
/// the name and the version trimmed.
pub proof fn lemma_declaring_line(
    pad_a: Seq<char>,
    name: Seq<char>,
    pad_b: Seq<char>,
    pad_c: Seq<char>,
    version: Seq<char>,
    pad_d: Seq<char>,
)
    requires
        all_ws(pad_a),
        all_ws(pad_b),
        all_ws(pad_c),
        all_ws(pad_d),
        name.len() > 0,
        version.len() > 0,
        !is_ws(name[0]),
        !is_ws(name.last()),
        !is_ws(version[0]),
        !is_ws(version.last()),
        name[0] != '#',
        lacks(name, '='),
        lacks(version, '='),
        lacks(name, '\n'),
        lacks(version, '\n'),
        lacks(pad_a, '\n'),
        lacks(pad_b, '\n'),
        lacks(pad_c, '\n'),
        lacks(pad_d, '\n'),
    ensures
        manifest_deps(pad_a + name + pad_b + "=="@ + pad_c + version + pad_d) == seq![(name, version)],
{
    reveal_strlit("==");
    let sep = "=="@;
    let line = pad_a + name + pad_b + sep + pad_c + version + pad_d;
    let mid = pad_b + sep + pad_c + version + pad_d;
    assert(line =~= pad_a + (name + mid));
    lemma_trim_left_pad(pad_a, name + mid);
    assert(trim_left(name + mid) == name + mid);
    let core = name + pad_b + sep + pad_c + version;
    assert(name + mid =~= core + pad_d);
    lemma_trim_right_pad(core, pad_d);
    assert(trim_right(core) == core);
    let t = core;
    assert(trim(line) == t);
    let i: int = (name.len() + pad_b.len()) as int;
    assert(t[i] == '=' && t[i + 1] == '=');
    assert forall|k: int| 0 <= k < i implies #[trigger] t[k] != '=' by {
        if k < name.len() {
            assert(t[k] == name[k]);
        } else {
            assert(t[k] == pad_b[k - name.len()]);
            assert(is_ws(pad_b[k - name.len()]));
        }
    }
    lemma_first_sep_at(t, 0, i);
    assert forall|k: int| i + 2 <= k < t.len() implies !#[trigger] sep_at(t, k) by {
        if k < i + 2 + pad_c.len() {
            assert(t[k] == pad_c[k - i - 2]);
            assert(is_ws(pad_c[k - i - 2]));
        } else {
            assert(t[k] == version[k - i - 2 - pad_c.len()]);
        }
    }
    lemma_first_sep_none(t, i + 2);
    assert(t.subrange(0, i) =~= name + pad_b);
    lemma_trim_right_pad(name, pad_b);
    assert(trim_left(name) == name);
    assert(trim_left(name + pad_b) == name + pad_b);
    assert(trim(t.subrange(0, i)) == name);
    assert(t.subrange(i + 2, t.len() as int) =~= pad_c + version);
    lemma_trim_left_pad(pad_c, version);
    assert(trim_left(version) == version);
    assert(trim(t.subrange(i + 2, t.len() as int)) == version);
    assert(lacks(sep, '\n'));
    assert forall|a: Seq<char>, b: Seq<char>| lacks(a, '\n') && lacks(b, '\n') implies #[trigger] lacks(
        a + b,
        '\n',
    ) by {
        assert forall|k: int| 0 <= k < (a + b).len() implies #[trigger] (a + b)[k] != '\n' by {
            if k < a.len() {
                assert((a + b)[k] == a[k]);
            } else {
                assert((a + b)[k] == b[k - a.len()]);
            }
        }
    }
    assert(lacks(pad_a + name, '\n'));
    assert(lacks(pad_a + name + pad_b, '\n'));
    assert(lacks(pad_a + name + pad_b + sep, '\n'));
    assert(lacks(pad_a + name + pad_b + sep + pad_c, '\n'));
    assert(lacks(pad_a + name + pad_b + sep + pad_c + version, '\n'));
    assert(lacks(line, '\n'));
    lemma_single_line(line);
}

/// A blank line, a comment line, or a line without `==` yields no
/// dependency.
pub proof fn lemma_non_declaring_line(line: Seq<char>)
    requires
        lacks(line, '\n'),
        trim(line).len() == 0 || trim(line)[0] == '#' || forall|k: int|
            !#[trigger] sep_at(line, k),
    ensures
        manifest_deps(line) == Seq::<(Seq<char>, Seq<char>)>::empty(),
{
    lemma_single_line(line);
    if !(trim(line).len() == 0 || trim(line)[0] == '#') {
        lemma_trim_is_slice(line);
        let (a, b) = choose|a: int, b: int| 0 <= a <= b <= line.len() && trim(line) == line.subrange(a, b);
        let t = trim(line);
        assert forall|k: int| 0 <= k < t.len() implies !#[trigger] sep_at(t, k) by {
            if sep_at(t, k) {
                assert(t[k] == line[a + k] && t[k + 1] == line[a + k + 1]);
                assert(sep_at(line, a + k));
            }
        }
        lemma_first_sep_none(t, 0);
    }
}

/// The release day given to packages read from a plain requirements list,
/// before any registry is asked: 2023-01-01.
pub const PLACEHOLDER_RELEASE_DAY: i32 = 738521;

/// Reads a plain `name==version` requirements list.
#[derive(Debug, Default)]
pub struct RequirementsParser;

impl RequirementsParser {
    /// One package per declared dependency, in line order, each dated
    /// `PLACEHOLDER_RELEASE_DAY`; an error where no line declares one.
    pub fn parse(&self, content: &str) -> (r: Result<Vec<Package>, ParseError>)
        ensures
            manifest_deps(content@).len() == 0 <==> r == Err::<Vec<Package>, ParseError>(
                ParseError::NoDependencies,
            ),
            r is Ok ==> {
                let ps = r->Ok_0@;
                &&& ps.len() == manifest_deps(content@).len()
                &&& forall|i: int|
                    0 <= i < ps.len() ==> (#[trigger] ps[i]).name@ == manifest_deps(content@)[i].0
                        && ps[i].version@ == manifest_deps(content@)[i].1
                        && ps[i].release_date.days_from_ce == PLACEHOLDER_RELEASE_DAY
            },
    {
        let deps = manifest_dependencies(content);
        if deps.len() == 0 {
            return Err(ParseError::NoDependencies);
        }
        let mut packages: Vec<Package> = Vec::new();
        let mut i: usize = 0;
        while i < deps.len()
            invariant
                i <= deps@.len(),
                deps_view(deps@) == manifest_deps(content@),
                packages@.len() == i,
                forall|k: int|
                    0 <= k < i ==> (#[trigger] packages@[k]).name@ == deps@[k].name@
                        && packages@[k].version@ == deps@[k].version@
                        && packages@[k].release_date.days_from_ce == PLACEHOLDER_RELEASE_DAY,
            decreases deps.len() - i,
        {
            let d = &deps[i];
            packages.push(
                Package::new(
                    d.name.clone(),
                    d.version.clone(),
                    Date::from_days_from_ce(PLACEHOLDER_RELEASE_DAY),
                ),
            );
            i = i + 1;
        }
        proof {
            assert forall|k: int| 0 <= k < packages@.len() implies (#[trigger] packages@[k]).name@
                == manifest_deps(content@)[k].0 && packages@[k].version@ == manifest_deps(
                content@,
            )[k].1 by {
                assert(deps_view(deps@)[k] == dep_view(deps@[k]));
            }
        }
        Ok(packages)
    }
}

/// A reader of one manifest format into dated packages.
pub trait Parser {
    fn parse(&self, content: &str) -> Result<Vec<Package>, ParseError>;
}

impl Parser for RequirementsParser {
    fn parse(&self, content: &str) -> Result<Vec<Package>, ParseError> {
        RequirementsParser::parse(self, content)
    }
}

/// The parser for a format name: only `requirements` is known.
pub fn create_parser(format: &str) -> (r: Option<RequirementsParser>)
    ensures
        r is Some <==> format@ == "requirements"@,
{
    if format.to_owned() == "requirements".to_owned() {
        Some(RequirementsParser)
    } else {
        None
    }
}

} // verus!
