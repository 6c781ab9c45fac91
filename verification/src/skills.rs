//! Skills: directories holding a SKILL.md with YAML frontmatter. This
//! module reads the frontmatter, merges the skills found in the builtin,
//! installed and project locations (project over installed over builtin),
//! and formats the catalog for the system prompt.
//!
//! Listing directories and reading files belong to the program around the
//! library.

use vstd::prelude::*;
use crate::text::{
    chars_of, has_prefix, lines_of, lines_seq, owned, push_str, str_eq, string_from_range, strip_prefix, trim,
    trim_seq, views_of,
};

verus! {

/// Where a skill came from.
#[derive(Debug, Clone, Copy, PartialEq, Eq, Structural)]
pub enum SkillSource {
    Builtin,
    Installed,
    Project,
}

/// A discovered skill.
#[derive(Debug)]
pub struct Skill {
    pub name: String,
    pub description: String,
    /// Path of the SKILL.md file.
    pub path: String,
    /// The skill's directory.
    pub base_dir: String,
    pub source: SkillSource,
}

/// The model of a skill.
pub struct SkillView {
    pub name: Seq<char>,
    pub description: Seq<char>,
    pub path: Seq<char>,
    pub base_dir: Seq<char>,
    pub source: SkillSource,
}

impl View for Skill {
    type V = SkillView;

    open spec fn view(&self) -> SkillView {
        SkillView {
            name: self.name@,
            description: self.description@,
            path: self.path@,
            base_dir: self.base_dir@,
            source: self.source,
        }
    }
}

pub open spec fn skill_views(v: Seq<Skill>) -> Seq<SkillView> {
    v.map_values(|s: Skill| s@)
}

// ── Frontmatter ──────────────────────────────────────────────────────

/// The `name` and `description` scalars of a SKILL.md frontmatter.
#[derive(Debug)]
pub struct SkillFrontmatter {
    pub name: Option<String>,
    pub description: Option<String>,
}

/// A scalar that is one quote character alone cannot be unquoted.
pub open spec fn lone_quote(s: Seq<char>) -> bool {
    let t = trim_seq(s);
    t == seq!['"'] || t == seq!['\'']
}

/// A YAML scalar with surrounding whitespace and one pair of matching
/// quotes removed.
pub open spec fn yaml_scalar(s: Seq<char>) -> Seq<char> {
    let t = trim_seq(s);
    if t.len() > 0 && ((t[0] == '"' && t.last() == '"') || (t[0] == '\'' && t.last() == '\'')) {
        t.subrange(1, t.len() - 1)
    } else {
        t
    }
}

/// Strip quotes and whitespace from a YAML scalar value.
pub fn trim_yaml_scalar(s: &str) -> (r: String)
    requires
        !lone_quote(s@),
    ensures
        r@ == yaml_scalar(s@),
{
    let t = trim(s);
    let v = chars_of(t.as_str());
    let n = v.len();
    if n == 1 {
        assert(t@ =~= seq![v@[0]]);
    }
    if n > 0 && ((v[0] == '"' && v[n - 1] == '"') || (v[0] == '\'' && v[n - 1] == '\'')) {
        string_from_range(&v, 1, n - 1)
    } else {
        t
    }
}

/// The frontmatter fields read from `lines` (the lines after the opening
/// `---`), up to the closing `---`; a later `name:` or `description:`
/// line overrides an earlier one.
pub open spec fn scan_fields(lines: Seq<Seq<char>>, name: Option<Seq<char>>, desc: Option<Seq<char>>) -> (
    Option<Seq<char>>,
    Option<Seq<char>>,
)
    decreases lines.len(),
{
    if lines.len() == 0 {
        (name, desc)
    } else {
        let t = trim_seq(lines[0]);
        if t == "---"@ {
            (name, desc)
        } else if has_prefix(t, "name:"@) {
            scan_fields(lines.drop_first(), Some(yaml_scalar(t.skip(5))), desc)
        } else if has_prefix(t, "description:"@) {
            scan_fields(lines.drop_first(), name, Some(yaml_scalar(t.skip(12))))
        } else {
            scan_fields(lines.drop_first(), name, desc)
        }
    }
}

/// No field line before the closing `---` holds a lone quote.
pub open spec fn fields_unquotable(lines: Seq<Seq<char>>) -> bool
    decreases lines.len(),
{
    if lines.len() == 0 {
        true
    } else {
        let t = trim_seq(lines[0]);
        if t == "---"@ {
            true
        } else if has_prefix(t, "name:"@) {
            !lone_quote(t.skip(5)) && fields_unquotable(lines.drop_first())
        } else if has_prefix(t, "description:"@) {
            !lone_quote(t.skip(12)) && fields_unquotable(lines.drop_first())
        } else {
            fields_unquotable(lines.drop_first())
        }
    }
}

/// The frontmatter of a SKILL.md: `None` unless its first line is `---`.
pub open spec fn frontmatter_of(content: Seq<char>) -> Option<(Option<Seq<char>>, Option<Seq<char>>)> {
    let ls = lines_seq(content);
    if ls.len() == 0 || trim_seq(ls[0]) != "---"@ {
        None
    } else {
        Some(scan_fields(ls.drop_first(), None, None))
    }
}

/// A frontmatter the parser can read without failing.
pub open spec fn readable_frontmatter(content: Seq<char>) -> bool {
    let ls = lines_seq(content);
    ls.len() > 0 && trim_seq(ls[0]) == "---"@ ==> fields_unquotable(ls.drop_first())
}

fn lone_quote_exec(s: &str) -> (r: bool)
    ensures
        r == lone_quote(s@),
{
    let t = trim(s);
    let v = chars_of(t.as_str());
    let r = v.len() == 1 && (v[0] == '"' || v[0] == '\'');
    proof {
        if v@.len() == 1 {
            assert(t@ =~= seq![v@[0]]);
        }
        if t@ == seq!['"'] || t@ == seq!['\''] {
            assert(v@.len() == 1);
        }
    }
    r
}

/// Whether `parse_frontmatter` can read `content` (no field of the
/// frontmatter is a lone quote character).
pub fn frontmatter_readable(content: &str) -> (r: bool)
    ensures
        r == readable_frontmatter(content@),
{
    proof {
        reveal_strlit("---");
        reveal_strlit("name:");
        reveal_strlit("description:");
    }
    let lines = lines_of(content);
    let ghost ls = views_of(lines@);
    if lines.len() == 0 {
        return true;
    }
    let first = trim(lines[0].as_str());
    assert(ls[0] == lines@[0]@);
    if !str_eq(first.as_str(), "---") {
        return true;
    }
    let mut i: usize = 1;
    assert(ls.skip(1) =~= ls.drop_first());
    while i < lines.len()
        invariant
            1 <= i <= lines@.len(),
            ls == views_of(lines@),
            ls == lines_seq(content@),
            ls.len() > 0,
            trim_seq(ls[0]) == "---"@,
            fields_unquotable(ls.drop_first()) == fields_unquotable(ls.skip(i as int)),
        decreases lines@.len() - i,
    {
        proof {
            reveal_strlit("---");
            reveal_strlit("name:");
            reveal_strlit("description:");
        }
        let ghost rest = ls.skip(i as int);
        assert(rest[0] == lines@[i as int]@);
        assert(rest.drop_first() =~= ls.skip(i + 1));
        let t = trim(lines[i].as_str());
        assert(t@ == trim_seq(rest[0]));
        if str_eq(t.as_str(), "---") {
            return true;
        }
        assert(t@ != "---"@);
        match strip_prefix(t.as_str(), "name:") {
            Some(value) => {
                if lone_quote_exec(value.as_str()) {
                    return false;
                }
            },
            None => match strip_prefix(t.as_str(), "description:") {
                Some(value) => {
                    if lone_quote_exec(value.as_str()) {
                        return false;
                    }
                },
                None => {},
            },
        }
        i += 1;
    }
    assert(ls.skip(i as int) =~= Seq::<Seq<char>>::empty());
    true
}

pub open spec fn opt_view(o: Option<String>) -> Option<Seq<char>> {
    match o {
        Some(s) => Some(s@),
        None => None,
    }
}

/// A tiny YAML frontmatter parser: only the top-level `name` and
/// `description` scalars are read.
pub fn parse_frontmatter(content: &str) -> (r: Option<SkillFrontmatter>)
    requires
        readable_frontmatter(content@),
    ensures
        match frontmatter_of(content@) {
            Some((n, d)) => r matches Some(fm) && opt_view(fm.name) == n && opt_view(fm.description) == d,
            None => r is None,
        },
{
    proof {
        reveal_strlit("---");
        reveal_strlit("name:");
        reveal_strlit("description:");
    }
    let lines = lines_of(content);
    let ghost ls = views_of(lines@);
    if lines.len() == 0 {
        return None;
    }
    let first = trim(lines[0].as_str());
    assert(ls[0] == lines@[0]@);
    if !str_eq(first.as_str(), "---") {
        return None;
    }
    let mut name: Option<String> = None;
    let mut desc: Option<String> = None;
    let mut i: usize = 1;
    let mut closed = false;
    assert(ls.skip(1) =~= ls.drop_first());
    while i < lines.len() && !closed
        invariant
            1 <= i <= lines@.len(),
            ls == views_of(lines@),
            ls == lines_seq(content@),
            !closed ==> fields_unquotable(ls.skip(i as int)),
            !closed ==> scan_fields(ls.drop_first(), None, None) == scan_fields(
                ls.skip(i as int),
                opt_view(name),
                opt_view(desc),
            ),
            closed ==> scan_fields(ls.drop_first(), None, None) == (opt_view(name), opt_view(desc)),
        decreases lines@.len() - i + (if closed { 0int } else { 1int }),
    {
        proof {
            reveal_strlit("---");
            reveal_strlit("name:");
            reveal_strlit("description:");
        }
        let ghost rest = ls.skip(i as int);
        assert(rest[0] == lines@[i as int]@);
        assert(rest.drop_first() =~= ls.skip(i + 1));
        let t = trim(lines[i].as_str());
        assert(t@ == trim_seq(rest[0]));
        if str_eq(t.as_str(), "---") {
            closed = true;
        } else {
            assert(t@ != "---"@);
            assert(has_prefix(t@, "name:"@) ==> !lone_quote(t@.skip(5)));
            assert(!has_prefix(t@, "name:"@) && has_prefix(t@, "description:"@) ==> !lone_quote(t@.skip(12)));
            match strip_prefix(t.as_str(), "name:") {
                Some(value) => {
                    name = Some(trim_yaml_scalar(value.as_str()));
                },
                None => match strip_prefix(t.as_str(), "description:") {
                    Some(value) => {
                        desc = Some(trim_yaml_scalar(value.as_str()));
                    },
                    None => {},
                },
            }
            i += 1;
        }
    }
    if !closed {
        assert(ls.skip(i as int) =~= Seq::<Seq<char>>::empty());
    }
    Some(SkillFrontmatter { name, description: desc })
}

/// The skill a SKILL.md describes: it needs a non-empty name; a missing
/// description is empty. `path` is where the file is, `base_dir` its
/// directory.
pub open spec fn skill_of(
    content: Seq<char>,
    path: Seq<char>,
    base_dir: Seq<char>,
    source: SkillSource,
) -> Option<SkillView> {
    match frontmatter_of(content) {
        Some((Some(n), d)) => if n.len() > 0 {
            Some(
                SkillView {
                    name: n,
                    description: match d {
                        Some(x) => x,
                        None => Seq::empty(),
                    },
                    path,
                    base_dir,
                    source,
                },
            )
        } else {
            None
        },
        _ => None,
    }
}

/// Read a skill from the content of its SKILL.md.
pub fn scan_one(content: &str, path: String, base_dir: String, source: SkillSource) -> (r: Option<Skill>)
    requires
        readable_frontmatter(content@),
    ensures
        match skill_of(content@, path@, base_dir@, source) {
            Some(v) => r matches Some(s) && s@ == v,
            None => r is None,
        },
{
    let fm = match parse_frontmatter(content) {
        Some(fm) => fm,
        None => return None,
    };
    let name = match fm.name {
        Some(n) => if n.as_str().is_empty() {
            return None;
        } else {
            n
        },
        None => return None,
    };
    let description = match fm.description {
        Some(d) => d,
        None => String::new(),
    };
    Some(Skill { name, description, path, base_dir, source })
}

// ── Merging and ordering ─────────────────────────────────────────────

/// `a` sorts before `b`: lexicographic order of characters (which is the
/// byte order of their UTF-8 encodings).
pub open spec fn text_lt(a: Seq<char>, b: Seq<char>) -> bool
    decreases a.len(),
{
    if a.len() == 0 {
        b.len() > 0
    } else if b.len() == 0 {
        false
    } else if (a[0] as int) < (b[0] as int) {
        true
    } else if a[0] == b[0] {
        text_lt(a.drop_first(), b.drop_first())
    } else {
        false
    }
}

/// Whether `a` sorts before `b`.
pub fn name_lt(a: &str, b: &str) -> (r: bool)
    ensures
        r == text_lt(a@, b@),
{
    let x = chars_of(a);
    let y = chars_of(b);
    let mut i: usize = 0;
    assert(a@.skip(0) =~= a@);
    assert(b@.skip(0) =~= b@);
    while i < x.len() && i < y.len() && x[i] == y[i]
        invariant
            x@ == a@,
            y@ == b@,
            i <= x@.len(),
            i <= y@.len(),
            text_lt(a@, b@) == text_lt(a@.skip(i as int), b@.skip(i as int)),
        decreases x@.len() - i,
    {
        assert(a@.skip(i as int).drop_first() =~= a@.skip(i + 1));
        assert(b@.skip(i as int).drop_first() =~= b@.skip(i + 1));
        i += 1;
    }
    if i == x.len() {
        i < y.len()
    } else if i == y.len() {
        false
    } else {
        assert(a@.skip(i as int)[0] == x@[i as int]);
        assert(b@.skip(i as int)[0] == y@[i as int]);
        x[i] < y[i]
    }
}

proof fn lemma_text_lt_irreflexive(a: Seq<char>)
    ensures
        !text_lt(a, a),
    decreases a.len(),
{
    if a.len() > 0 {
        lemma_text_lt_irreflexive(a.drop_first());
    }
}

proof fn lemma_text_lt_trans(a: Seq<char>, b: Seq<char>, c: Seq<char>)
    requires
        text_lt(a, b),
        text_lt(b, c),
    ensures
        text_lt(a, c),
    decreases a.len(),
{
    if a.len() > 0 && b.len() > 0 && c.len() > 0 && a[0] == b[0] && b[0] == c[0] {
        lemma_text_lt_trans(a.drop_first(), b.drop_first(), c.drop_first());
    }
}

proof fn lemma_text_lt_total(a: Seq<char>, b: Seq<char>)
    ensures
        a != b ==> text_lt(a, b) || text_lt(b, a),
    decreases a.len(),
{
    if a.len() > 0 && b.len() > 0 && a[0] == b[0] {
        lemma_text_lt_total(a.drop_first(), b.drop_first());
        if a.drop_first() == b.drop_first() {
            assert(a =~= seq![a[0]] + a.drop_first());
            assert(b =~= seq![b[0]] + b.drop_first());
        }
    } else if a.len() == 0 && b.len() == 0 {
        assert(a =~= b);
    } else if a.len() > 0 && b.len() > 0 {
        assert((a[0] as int) != (b[0] as int));
    }
}

/// Strictly ascending by name (so no name occurs twice).
pub open spec fn sorted_by_name(v: Seq<SkillView>) -> bool {
    forall|i: int, j: int| 0 <= i < j < v.len() ==> text_lt(v[i].name, v[j].name)
}

/// The skill that wins for `name` among `all`: the last one with that name.
pub open spec fn winner(all: Seq<SkillView>, name: Seq<char>) -> Option<SkillView>
    decreases all.len(),
{
    if all.len() == 0 {
        None
    } else if all.last().name == name {
        Some(all.last())
    } else {
        winner(all.drop_last(), name)
    }
}

/// `out` holds exactly the winning skill of each name in `all`.
pub open spec fn merged(all: Seq<SkillView>, out: Seq<SkillView>) -> bool {
    &&& forall|i: int| 0 <= i < out.len() ==> winner(all, #[trigger] out[i].name) == Some(out[i])
    &&& forall|n: Seq<char>| #[trigger] winner(all, n) is Some ==> exists|i: int| 0 <= i < out.len() && out[i].name == n
}

proof fn lemma_winner_name(all: Seq<SkillView>, n: Seq<char>)
    ensures
        winner(all, n) matches Some(s) ==> s.name == n,
    decreases all.len(),
{
    if all.len() > 0 {
        lemma_winner_name(all.drop_last(), n);
    }
}

/// Put `s` in its place in `v` by name, replacing a skill of the same name.
fn place(v: &mut Vec<Skill>, s: Skill)
    requires
        sorted_by_name(skill_views(old(v)@)),
    ensures
        sorted_by_name(skill_views(final(v)@)),
        forall|i: int| 0 <= i < final(v)@.len() ==> (#[trigger] skill_views(final(v)@)[i]) == s@ || (
            skill_views(final(v)@)[i].name != s@.name && exists|j: int|
                0 <= j < old(v)@.len() && skill_views(old(v)@)[j] == skill_views(final(v)@)[i]),
        exists|i: int| 0 <= i < final(v)@.len() && skill_views(final(v)@)[i] == s@,
        forall|j: int| 0 <= j < old(v)@.len() && (#[trigger] skill_views(old(v)@)[j]).name != s@.name ==> exists|i: int|
            0 <= i < final(v)@.len() && skill_views(final(v)@)[i] == skill_views(old(v)@)[j],
{
    let ghost before = skill_views(v@);
    let mut p: usize = 0;
    while p < v.len() && name_lt(v[p].name.as_str(), s.name.as_str())
        invariant
            p <= v@.len(),
            before == skill_views(v@),
            sorted_by_name(before),
            forall|j: int| 0 <= j < p ==> text_lt(before[j].name, s@.name),
        decreases v@.len() - p,
    {
        p += 1;
    }
    let ghost sv = s@;
    if p < v.len() && str_eq(v[p].name.as_str(), s.name.as_str()) {
        v.set(p, s);
        proof {
            let w = skill_views(v@);
            assert(w =~= before.update(p as int, sv));
            assert forall|i: int, j: int| 0 <= i < j < w.len() implies text_lt(w[i].name, w[j].name) by {
                assert(w[i].name == before[i].name);
                assert(w[j].name == before[j].name);
            }
            assert forall|i: int| 0 <= i < w.len() implies (#[trigger] w[i]) == sv || (w[i].name != sv.name && exists|j: int|
                0 <= j < before.len() && before[j] == w[i]) by {
                if i != p {
                    assert(w[i] == before[i]);
                    if i < p {
                        lemma_text_lt_irreflexive(sv.name);
                    } else {
                        lemma_text_lt_irreflexive(before[p as int].name);
                    }
                }
            }
            assert(w[p as int] == sv);
            assert forall|j: int| 0 <= j < before.len() && (#[trigger] before[j]).name != sv.name implies exists|i: int|
                0 <= i < w.len() && w[i] == before[j] by {
                assert(w[j] == before[j]);
            }
        }
    } else {
        v.insert(p, s);
        proof {
            let w = skill_views(v@);
            assert(w =~= before.insert(p as int, sv));
            if p < before.len() {
                lemma_text_lt_total(before[p as int].name, sv.name);
            }
            assert forall|i: int, j: int| 0 <= i < j < w.len() implies text_lt(w[i].name, w[j].name) by {
                if j < p {
                    assert(w[i] == before[i] && w[j] == before[j]);
                } else if j == p {
                    assert(w[i] == before[i]);
                } else if i < p {
                    assert(w[i] == before[i] && w[j] == before[j - 1]);
                    if j - 1 > p {
                        lemma_text_lt_trans(before[i].name, before[p as int].name, before[j - 1].name);
                    }
                    lemma_text_lt_trans(before[i].name, sv.name, before[p as int].name);
                } else if i == p {
                    assert(w[j] == before[j - 1]);
                    if j - 1 > p {
                        lemma_text_lt_trans(sv.name, before[p as int].name, before[j - 1].name);
                    }
                } else {
                    assert(w[i] == before[i - 1] && w[j] == before[j - 1]);
                }
            }
            assert forall|i: int| 0 <= i < w.len() implies (#[trigger] w[i]) == sv || (w[i].name != sv.name && exists|j: int|
                0 <= j < before.len() && before[j] == w[i]) by {
                if i < p {
                    assert(w[i] == before[i]);
                    lemma_text_lt_irreflexive(sv.name);
                } else if i > p {
                    assert(w[i] == before[i - 1]);
                    if i - 1 > p {
                        lemma_text_lt_trans(sv.name, before[p as int].name, before[i - 1].name);
                    }
                    lemma_text_lt_irreflexive(sv.name);
                }
            }
            assert(w[p as int] == sv);
            assert forall|j: int| 0 <= j < before.len() && (#[trigger] before[j]).name != sv.name implies exists|i: int|
                0 <= i < w.len() && w[i] == before[j] by {
                if j < p {
                    assert(w[j] == before[j]);
                } else {
                    assert(w[j + 1] == before[j]);
                }
            }
        }
    }
}

/// Merge the skills found, lowest priority first (builtin, then
/// installed, then project): a later skill of the same name replaces an
/// earlier one, and the result is sorted by name.
pub fn scan_all(found: Vec<Skill>) -> (r: Vec<Skill>)
    ensures
        sorted_by_name(skill_views(r@)),
        merged(skill_views(found@), skill_views(r@)),
{
    let ghost all = skill_views(found@);
    let mut out: Vec<Skill> = Vec::new();
    let mut rest = found;
    let ghost mut done: Seq<SkillView> = Seq::empty();
    assert(all =~= done + skill_views(rest@));
    while rest.len() > 0
        invariant
            all == done + skill_views(rest@),
            sorted_by_name(skill_views(out@)),
            merged(done, skill_views(out@)),
        decreases rest@.len(),
    {
        let ghost before_rest = rest@;
        let s = rest.remove(0);
        let ghost sv = s@;
        assert(skill_views(before_rest) =~= seq![sv] + skill_views(rest@));
        let ghost before_out = skill_views(out@);
        place(&mut out, s);
        proof {
            let nd = done.push(sv);
            assert(nd.drop_last() =~= done);
            let w = skill_views(out@);
            assert forall|i: int| 0 <= i < w.len() implies winner(nd, #[trigger] w[i].name) == Some(w[i]) by {
                if w[i] != sv {
                    let j = choose|j: int| 0 <= j < before_out.len() && before_out[j] == w[i];
                    assert(winner(done, before_out[j].name) == Some(before_out[j]));
                }
            }
            assert forall|n: Seq<char>| #[trigger] winner(nd, n) is Some implies exists|i: int|
                0 <= i < w.len() && w[i].name == n by {
                if n == sv.name {
                    let i = choose|i: int| 0 <= i < w.len() && w[i] == sv;
                    assert(w[i].name == n);
                } else {
                    assert(winner(done, n) is Some);
                    let j = choose|j: int| 0 <= j < before_out.len() && before_out[j].name == n;
                    assert(before_out[j].name != sv.name);
                    let i = choose|i: int| 0 <= i < w.len() && w[i] == before_out[j];
                    assert(w[i].name == n);
                }
            }
            done = nd;
            assert(all =~= done + skill_views(rest@));
        }
    }
    assert(done =~= all);
    out
}

// ── The catalog for the system prompt ────────────────────────────────

/// The catalog entry of one skill.
pub open spec fn skill_entry(s: SkillView) -> Seq<char> {
    "\n  <skill>\n    <name>"@ + s.name + "</name>\n    <description>"@ + s.description
        + "</description>\n    <location>"@ + s.path + "</location>\n  </skill>"@
}

pub open spec fn skill_entries(v: Seq<SkillView>) -> Seq<char>
    decreases v.len(),
{
    if v.len() == 0 {
        Seq::empty()
    } else {
        skill_entries(v.drop_last()) + skill_entry(v.last())
    }
}

/// The header of the catalog.
pub open spec fn catalog_head() -> Seq<char> {
    "\nThe following skills provide specialized instructions for specific tasks.\nUse Read to load a skill file when the task matches its description.\n\n<available_skills>"@
}

/// The `<available_skills>` fragment of the system prompt; empty when
/// there are no skills.
pub open spec fn catalog(v: Seq<SkillView>) -> Seq<char> {
    if v.len() == 0 {
        Seq::empty()
    } else {
        catalog_head() + skill_entries(v) + "\n</available_skills>"@
    }
}

/// Build the `<available_skills>` fragment for the system prompt.
pub fn format_for_prompt(skills: &Vec<Skill>) -> (r: String)
    ensures
        r@ == catalog(skill_views(skills@)),
{
    let ghost sv = skill_views(skills@);
    if skills.len() == 0 {
        return String::new();
    }
    proof {
        reveal_strlit(
            "\nThe following skills provide specialized instructions for specific tasks.\nUse Read to load a skill file when the task matches its description.\n\n<available_skills>",
        );
    }
    let mut out = owned(
        "\nThe following skills provide specialized instructions for specific tasks.\nUse Read to load a skill file when the task matches its description.\n\n<available_skills>",
    );
    let mut i: usize = 0;
    assert(sv.take(0) =~= Seq::<SkillView>::empty());
    while i < skills.len()
        invariant
            i <= skills@.len(),
            sv == skill_views(skills@),
            out@ == catalog_head() + skill_entries(sv.take(i as int)),
        decreases skills@.len() - i,
    {
        assert(sv.take(i + 1).drop_last() =~= sv.take(i as int));
        assert(sv.take(i + 1).last() == skills@[i as int]@);
        push_str(&mut out, "\n  <skill>\n    <name>");
        push_str(&mut out, skills[i].name.as_str());
        push_str(&mut out, "</name>\n    <description>");
        push_str(&mut out, skills[i].description.as_str());
        push_str(&mut out, "</description>\n    <location>");
        push_str(&mut out, skills[i].path.as_str());
        push_str(&mut out, "</location>\n  </skill>");
        i += 1;
    }
    assert(sv.take(skills@.len() as int) =~= sv);
    push_str(&mut out, "\n</available_skills>");
    out
}

} // verus!
