//! `-o key.path=value` overrides.  The first segment names a root
//! table; each further segment is a key, or an index into an array of
//! tables when it reads as a `usize`.  The value is TOML when it parses
//! as TOML and a string otherwise.  Overrides are written into the TOML
//! tree of the configuration before it is deserialised, so they are
//! typed and checked exactly as the file is.

use vstd::prelude::*;
use crate::numeric::{parse_usize, parse_usize_spec};
use crate::resolve::ConfigError;
use crate::text::{concat2, concat3, find_char, index_of, lemma_index_of, lemma_split_on_nonempty, owned, split_char, split_on, str_eq, substring};

verus! {

/// One step below the root table.
#[derive(Debug, Clone, PartialEq, Eq)]
pub enum PathStep {
    Key(String),
    Index(usize),
}

/// A parsed override: the root table, the steps below it (at least
/// one), and the raw value text.
#[derive(Debug, Clone, PartialEq, Eq)]
pub struct Override {
    pub root: String,
    pub steps: Vec<PathStep>,
    pub value: String,
}

pub open spec fn step_matches(step: PathStep, seg: Seq<char>) -> bool {
    match parse_usize_spec(seg) {
        Some(n) => step == PathStep::Index(n),
        None => step matches PathStep::Key(k) && k@ == seg,
    }
}

pub open spec fn override_msg(spec: Seq<char>, tail: Seq<char>) -> Seq<char> {
    "override '"@ + spec + "': "@ + tail
}

/// Why an override is malformed: no `=`, an empty path segment, or a
/// path of one segment only.
pub open spec fn override_error(spec: Seq<char>) -> Option<Seq<char>> {
    match index_of(spec, '=') {
        None => Some(override_msg(spec, "expected KEY.PATH=VALUE"@)),
        Some(i) => {
            let segs = split_on(spec.subrange(0, i), '.');
            if exists|k: int| 0 <= k < segs.len() && #[trigger] segs[k].len() == 0 {
                Some(override_msg(spec, "empty key path segment"@))
            } else if segs.len() < 2 {
                Some(override_msg(spec, "path must have at least two segments"@))
            } else {
                None
            }
        },
    }
}

fn override_message(spec: &str, tail: &str) -> (r: String)
    ensures
        r@ == override_msg(spec@, tail@),
{
    let a = concat3("override '", spec, "': ");
    concat2(a.as_str(), tail)
}

/// `section.key=value` parsing of one `-o` argument.
pub fn parse_override(spec: &str) -> (r: Result<Override, String>)
    ensures
        match r {
            Ok(o) => {
                let i = index_of(spec@, '=')->0;
                let segs = split_on(spec@.subrange(0, i), '.');
                &&& override_error(spec@) is None
                &&& o.root@ == segs[0]
                &&& o.steps@.len() == segs.len() - 1
                &&& forall|k: int| 0 <= k < o.steps@.len() ==> step_matches(#[trigger] o.steps@[k], segs[k + 1])
                &&& o.value@ == spec@.subrange(i + 1, spec@.len() as int)
            },
            Err(m) => override_error(spec@) == Some(m@),
        },
{
    proof {
        lemma_index_of(spec@, '=');
    }
    let eq = match find_char(spec, '=') {
        None => return Err(override_message(spec, "expected KEY.PATH=VALUE")),
        Some(i) => i,
    };
    let n = spec.unicode_len();
    let path = substring(spec, 0, eq);
    let value = substring(spec, eq + 1, n);
    let segs = split_char(path.as_str(), '.');
    let ghost sp = split_on(spec@.subrange(0, eq as int), '.');
    assert(path@ == spec@.subrange(0, eq as int));
    proof {
        lemma_split_on_nonempty(spec@.subrange(0, eq as int), '.');
    }
    let mut k: usize = 0;
    while k < segs.len()
        invariant
            k <= segs@.len(),
            segs@.len() == sp.len(),
            forall|j: int| 0 <= j < segs@.len() ==> #[trigger] segs@[j]@ == sp[j],
            forall|j: int| 0 <= j < k ==> (#[trigger] sp[j]).len() > 0,
            index_of(spec@, '=') == Some(eq as int),
            sp == split_on(spec@.subrange(0, eq as int), '.'),
        decreases segs@.len() - k,
    {
        if segs[k].unicode_len() == 0 {
            assert(sp[k as int].len() == 0);
            assert(exists|q: int| 0 <= q < sp.len() && #[trigger] sp[q].len() == 0);
            return Err(override_message(spec, "empty key path segment"));
        }
        k += 1;
    }
    if segs.len() < 2 {
        return Err(override_message(spec, "path must have at least two segments"));
    }
    let mut steps: Vec<PathStep> = Vec::new();
    let mut j: usize = 1;
    while j < segs.len()
        invariant
            1 <= j <= segs@.len(),
            segs@.len() == sp.len(),
            forall|q: int| 0 <= q < segs@.len() ==> #[trigger] segs@[q]@ == sp[q],
            steps@.len() == j - 1,
            forall|q: int| 0 <= q < steps@.len() ==> step_matches(#[trigger] steps@[q], sp[q + 1]),
        decreases segs@.len() - j,
    {
        let seg = segs[j].as_str();
        let step = match parse_usize(seg) {
            Some(v) => PathStep::Index(v),
            None => PathStep::Key(segs[j].clone()),
        };
        steps.push(step);
        j += 1;
    }
    Ok(Override { root: segs[0].clone(), steps, value })
}

/// A TOML value as the configuration tree holds it.  A table keeps its
/// entries in order; a key is looked up by its first entry.
#[derive(Debug, PartialEq)]
pub enum TomlValue {
    String(String),
    Integer(i64),
    /// The bits of the `f64`.
    Float(u64),
    Boolean(bool),
    /// The date-time as TOML writes it.
    Datetime(String),
    Array(Vec<TomlValue>),
    Table(Vec<(String, TomlValue)>),
}

#[verifier::external_type_specification]
#[verifier::external_body]
pub struct ExTomlValue(toml::Value);

/// What `str::parse::<toml::Table>` gives for a text: its entries in the
/// table's order, or the parse error's message.
pub uninterp spec fn toml_table_of(text: Seq<char>) -> Result<Seq<(Seq<char>, TomlValue)>, Seq<char>>;

/// A `toml::Value` in the library's tree, variant for variant: a float
/// by `f64::to_bits`, a date-time by `toml::Datetime`'s `Display`.  Only
/// `parse_toml_table` calls it; since a `toml::Value` is opaque to the
/// proofs, nothing is stated of the result here, and what the parse
/// gives is named whole in that wrapper's contract.
#[verifier::external_body]
fn from_toml(v: &toml::Value) -> TomlValue {
    match v {
        toml::Value::String(s) => TomlValue::String(s.clone()),
        toml::Value::Integer(i) => TomlValue::Integer(*i),
        toml::Value::Float(f) => TomlValue::Float(f.to_bits()),
        toml::Value::Boolean(b) => TomlValue::Boolean(*b),
        toml::Value::Datetime(d) => TomlValue::Datetime(d.to_string()),
        toml::Value::Array(a) => TomlValue::Array(a.iter().map(from_toml).collect()),
        toml::Value::Table(t) => TomlValue::Table(t.iter().map(|(k, x)| (k.clone(), from_toml(x))).collect()),
    }
}

/// `text.parse::<toml::Table>()`, its entries converted to the library's
/// tree and its error to its message.  The contract claims only that the
/// result is the one the name `toml_table_of` gives for the text.
#[verifier::external_body]
fn parse_toml_table(text: &str) -> (r: Result<Vec<(String, TomlValue)>, String>)
    ensures
        match (r, toml_table_of(text@)) {
            (Ok(t), Ok(m)) => t@.len() == m.len() && forall|i: int|
                0 <= i < m.len() ==> (#[trigger] t@[i]).0@ == m[i].0 && t@[i].1 == m[i].1,
            (Err(e), Err(m)) => e@ == m,
            _ => false,
        },
{
    match text.parse::<toml::Table>() {
        Ok(t) => Ok(t.iter().map(|(k, x)| (k.clone(), from_toml(x))).collect()),
        Err(e) => Err(e.to_string()),
    }
}

/// The configuration file's text as a tree; an unreadable text is the
/// error `config file '<path>': <parse error>`.
pub fn parse_config_text(path: &str, text: &str) -> (r: Result<Vec<(String, TomlValue)>, ConfigError>)
    ensures
        match (r, toml_table_of(text@)) {
            (Ok(t), Ok(m)) => t@.len() == m.len() && forall|i: int|
                0 <= i < m.len() ==> (#[trigger] t@[i]).0@ == m[i].0 && t@[i].1 == m[i].1,
            (Err(ConfigError::Invalid(msg)), Err(e)) => msg@ == "config file '"@ + path@ + "': "@ + e,
            _ => false,
        },
{
    match parse_toml_table(text) {
        Ok(t) => Ok(t),
        Err(e) => {
            let a = concat3("config file '", path, "': ");
            Err(ConfigError::Invalid(concat2(a.as_str(), e.as_str())))
        },
    }
}

/// The first entry of `t` with key `k`.
#[verifier::opaque]
pub open spec fn first_key(t: Seq<(String, TomlValue)>, k: Seq<char>) -> Option<int> {
    if exists|i: int| 0 <= i < t.len() && (#[trigger] t[i]).0@ == k {
        Some(choose|i: int| 0 <= i < t.len() && (#[trigger] t[i]).0@ == k
            && forall|j: int| 0 <= j < i ==> (#[trigger] t[j]).0@ != k)
    } else {
        None
    }
}

/// The first entry of a parsed table with key `k`.
pub open spec fn first_parsed_key(t: Seq<(Seq<char>, TomlValue)>, k: Seq<char>) -> Option<int> {
    if exists|i: int| 0 <= i < t.len() && (#[trigger] t[i]).0 == k {
        Some(choose|i: int| 0 <= i < t.len() && (#[trigger] t[i]).0 == k
            && forall|j: int| 0 <= j < i ==> (#[trigger] t[j]).0 != k)
    } else {
        None
    }
}

/// How an override's value text is typed: the `v` entry of the table that
/// `v = <raw>` parses to, else the text as a string.
pub open spec fn is_override_value(raw: Seq<char>, v: TomlValue) -> bool {
    let as_string = v matches TomlValue::String(s) && s@ == raw;
    match toml_table_of("v = "@ + raw) {
        Ok(t) => match first_parsed_key(t, "v"@) {
            Some(i) => v == t[i].1,
            None => as_string,
        },
        Err(_) => as_string,
    }
}

pub open spec fn is_empty_table(v: TomlValue) -> bool {
    v matches TomlValue::Table(t) && t@.len() == 0
}

/// The items of an array value; none for anything else.
pub open spec fn array_items(cur: Option<TomlValue>) -> Seq<TomlValue> {
    match cur {
        Some(TomlValue::Array(a)) => a@,
        _ => Seq::empty(),
    }
}

/// The entries of a table value; none for anything else.
pub open spec fn table_entries(cur: Option<TomlValue>) -> Seq<(String, TomlValue)> {
    match cur {
        Some(TomlValue::Table(t)) => t@,
        _ => Seq::empty(),
    }
}

/// `new` is `cur` with `leaf` written at the path `segs` below it.  An
/// absent value (`None`) stands as an empty table.  A segment that reads
/// as a `usize` indexes an array, a value that is no array becoming an
/// empty one and a short array being padded with empty tables; any other
/// segment is a key of a table, a value that is no table becoming an
/// empty one.
pub open spec fn set_rel(cur: Option<TomlValue>, segs: Seq<Seq<char>>, leaf: TomlValue, new: TomlValue) -> bool
    decreases segs.len(), 0int,
{
    if segs.len() == 0 {
        new == leaf
    } else {
        match parse_usize_spec(segs[0]) {
            Some(n) => match new {
                TomlValue::Array(na) => {
                    let oa = array_items(cur);
                    &&& na@.len() == (if n < oa.len() { oa.len() as int } else { n + 1 })
                    &&& forall|j: int| 0 <= j < oa.len() && j != n ==> #[trigger] na@[j] == oa[j]
                    &&& forall|j: int| oa.len() <= j < n ==> is_empty_table(#[trigger] na@[j])
                    &&& set_rel(
                        if n < oa.len() { Some(oa[n as int]) } else { None },
                        segs.drop_first(),
                        leaf,
                        na@[n as int],
                    )
                },
                _ => false,
            },
            None => match new {
                TomlValue::Table(nt) => set_entry(table_entries(cur), segs[0], segs.drop_first(), leaf, nt@),
                _ => false,
            },
        }
    }
}

/// `nt` is the table `t` with `leaf` written at key `k` and then the path
/// `rest`: the first entry with key `k` is rewritten in place, or a new
/// entry is appended.
pub open spec fn set_entry(
    t: Seq<(String, TomlValue)>,
    k: Seq<char>,
    rest: Seq<Seq<char>>,
    leaf: TomlValue,
    nt: Seq<(String, TomlValue)>,
) -> bool
    decreases rest.len(), 1int,
{
    match first_key(t, k) {
        Some(i) => {
            &&& nt.len() == t.len()
            &&& forall|j: int| 0 <= j < t.len() && j != i ==> #[trigger] nt[j] == t[j]
            &&& nt[i].0 == t[i].0
            &&& set_rel(Some(t[i].1), rest, leaf, nt[i].1)
        },
        None => {
            &&& nt.len() == t.len() + 1
            &&& forall|j: int| 0 <= j < t.len() ==> #[trigger] nt[j] == t[j]
            &&& nt[t.len() as int].0@ == k
            &&& set_rel(None, rest, leaf, nt[t.len() as int].1)
        },
    }
}

/// `v = <raw>` read as TOML: the `v` entry when the text parses, the raw
/// text as a string otherwise.
pub fn override_value(raw: &str) -> (v: TomlValue)
    ensures
        is_override_value(raw@, v),
{
    let text = concat2("v = ", raw);
    match parse_toml_table(text.as_str()) {
        Ok(mut t) => {
            let ghost m = toml_table_of(text@)->Ok_0;
            assert(text@ == "v = "@ + raw@);
            let mut i: usize = 0;
            while i < t.len()
                invariant
                    i <= t@.len(),
                    toml_table_of("v = "@ + raw@) matches Ok(tm) && tm == m,
                    t@.len() == m.len(),
                    forall|q: int| 0 <= q < m.len() ==> (#[trigger] t@[q]).0@ == m[q].0 && t@[q].1 == m[q].1,
                    forall|q: int| 0 <= q < i ==> (#[trigger] m[q]).0 != "v"@,
                decreases t@.len() - i,
            {
                if str_eq(t[i].0.as_str(), "v") {
                    assert(first_parsed_key(m, "v"@) == Some(i as int)) by {
                        assert(m[i as int].0 == "v"@);
                        let c = choose|c: int| 0 <= c < m.len() && (#[trigger] m[c]).0 == "v"@
                            && forall|j: int| 0 <= j < c ==> (#[trigger] m[j]).0 != "v"@;
                        if c < i {
                            assert(m[c].0 != "v"@);
                        }
                        if c > i {
                            assert(m[i as int].0 != "v"@);
                        }
                    }
                    let (_, v) = t.remove(i);
                    return v;
                }
                i += 1;
            }
            assert(first_parsed_key(m, "v"@) is None);
            TomlValue::String(owned(raw))
        },
        Err(_) => TomlValue::String(owned(raw)),
    }
}

/// Where a malformed override leaves the tree: a path of one segment
/// still puts an empty table at that root key when it has none.
pub open spec fn tree_after_error(spec: Seq<char>, prev: Seq<(String, TomlValue)>, new: Seq<(String, TomlValue)>) -> bool {
    match index_of(spec, '=') {
        Some(i) => {
            let path = spec.subrange(0, i);
            if path.len() > 0 && index_of(path, '.') is None && first_key(prev, path) is None {
                &&& new.len() == prev.len() + 1
                &&& forall|j: int| 0 <= j < prev.len() ==> #[trigger] new[j] == prev[j]
                &&& new[prev.len() as int].0@ == path
                &&& is_empty_table(new[prev.len() as int].1)
            } else {
                new == prev
            }
        },
        None => new == prev,
    }
}

/// The first entry of `t` with key `k`, by a scan.
fn find_key(t: &Vec<(String, TomlValue)>, k: &str) -> (r: Option<usize>)
    ensures
        match r {
            Some(i) => i < t@.len() && first_key(t@, k@) == Some(i as int),
            None => first_key(t@, k@) is None,
        },
{
    let mut i: usize = 0;
    while i < t.len()
        invariant
            i <= t@.len(),
            forall|q: int| 0 <= q < i ==> (#[trigger] t@[q]).0@ != k@,
        decreases t@.len() - i,
    {
        if str_eq(t[i].0.as_str(), k) {
            proof {
                lemma_first_key_at(t@, k@, i as int);
            }
            return Some(i);
        }
        i += 1;
    }
    proof {
        reveal(first_key);
    }
    None
}

/// Writes `leaf` at `steps[k..]` below `cur`.
fn set_in(cur: Option<TomlValue>, steps: &Vec<PathStep>, k: usize, leaf: TomlValue, Ghost(segs): Ghost<Seq<Seq<char>>>) -> (new: TomlValue)
    requires
        k <= steps@.len(),
        segs.len() == steps@.len(),
        forall|q: int| 0 <= q < segs.len() ==> step_matches(#[trigger] steps@[q], segs[q]),
    ensures
        set_rel(cur, segs.subrange(k as int, segs.len() as int), leaf, new),
    decreases steps@.len() - k, 0int,
{
    let ghost here = segs.subrange(k as int, segs.len() as int);
    if k == steps.len() {
        return leaf;
    }
    assert(here.drop_first() =~= segs.subrange(k + 1, segs.len() as int));
    assert(step_matches(steps@[k as int], segs[k as int]));
    match &steps[k] {
        PathStep::Index(n) => {
            let n: usize = *n;
            let mut items: Vec<TomlValue> = match cur {
                Some(TomlValue::Array(a)) => a,
                _ => Vec::new(),
            };
            let ghost oa = items@;
            if n < items.len() {
                let child = items.remove(n);
                let nc = set_in(Some(child), steps, k + 1, leaf, Ghost(segs));
                items.insert(n, nc);
            } else {
                while items.len() < n
                    invariant
                        oa.len() <= items@.len() <= n,
                        forall|j: int| 0 <= j < oa.len() ==> #[trigger] items@[j] == oa[j],
                        forall|j: int| oa.len() <= j < items@.len() ==> is_empty_table(#[trigger] items@[j]),
                    decreases n - items@.len(),
                {
                    items.push(TomlValue::Table(Vec::new()));
                }
                let nc = set_in(None, steps, k + 1, leaf, Ghost(segs));
                items.push(nc);
            }
            TomlValue::Array(items)
        },
        PathStep::Key(key) => {
            let mut t: Vec<(String, TomlValue)> = match cur {
                Some(TomlValue::Table(t)) => t,
                _ => Vec::new(),
            };
            set_entry_in(&mut t, key, steps, k + 1, leaf, Ghost(segs));
            TomlValue::Table(t)
        },
    }
}

/// Writes `leaf` at key `key` and then `steps[k..]` in the table `t`.
fn set_entry_in(
    t: &mut Vec<(String, TomlValue)>,
    key: &String,
    steps: &Vec<PathStep>,
    k: usize,
    leaf: TomlValue,
    Ghost(segs): Ghost<Seq<Seq<char>>>,
)
    requires
        k <= steps@.len(),
        segs.len() == steps@.len(),
        forall|q: int| 0 <= q < segs.len() ==> step_matches(#[trigger] steps@[q], segs[q]),
    ensures
        set_entry(old(t)@, key@, segs.subrange(k as int, segs.len() as int), leaf, final(t)@),
    decreases steps@.len() - k, 1int,
{
    match find_key(t, key.as_str()) {
        Some(i) => {
            let (name, v) = t.remove(i);
            let nv = set_in(Some(v), steps, k, leaf, Ghost(segs));
            t.insert(i, (name, nv));
        },
        None => {
            let nv = set_in(None, steps, k, leaf, Ghost(segs));
            t.push((key.clone(), nv));
        },
    }
}

/// `new` is the tree `prev` with the well-formed override `spec` applied:
/// its typed value written at its path.
pub open spec fn override_applied(prev: Seq<(String, TomlValue)>, spec: Seq<char>, new: Seq<(String, TomlValue)>) -> bool {
    let i = index_of(spec, '=')->0;
    let segs = split_on(spec.subrange(0, i), '.');
    &&& override_error(spec) is None
    &&& exists|leaf: TomlValue|
        is_override_value(spec.subrange(i + 1, spec.len() as int), leaf)
            && #[trigger] set_entry(prev, segs[0], segs.drop_first(), leaf, new)
}

/// `new` is the tree `prev` with the overrides `specs` applied in order.
pub open spec fn overrides_applied(prev: Seq<(String, TomlValue)>, specs: Seq<Seq<char>>, new: Seq<(String, TomlValue)>) -> bool
    decreases specs.len(),
{
    if specs.len() == 0 {
        new == prev
    } else {
        exists|mid: Seq<(String, TomlValue)>|
            overrides_applied(prev, specs.drop_last(), mid) && #[trigger] override_applied(mid, specs.last(), new)
    }
}

/// Applies one `-o` override to the tree: `Err` with the message when it
/// is malformed, else the value written at its path.
pub fn apply_override(root: &mut Vec<(String, TomlValue)>, spec: &str) -> (r: Result<(), String>)
    ensures
        match r {
            Ok(_) => override_applied(old(root)@, spec@, final(root)@),
            Err(m) => override_error(spec@) == Some(m@) && tree_after_error(spec@, old(root)@, final(root)@),
        },
{
    let o = match parse_override(spec) {
        Ok(o) => o,
        Err(m) => {
            proof {
                lemma_index_of(spec@, '=');
            }
            if let Some(eq) = find_char(spec, '=') {
                let path = substring(spec, 0, eq);
                if path.unicode_len() > 0 && find_char(path.as_str(), '.').is_none() {
                    if find_key(root, path.as_str()).is_none() {
                        root.push((path, TomlValue::Table(Vec::new())));
                    }
                }
            }
            return Err(m);
        },
    };
    let ghost i = index_of(spec@, '=')->0;
    let ghost segs = split_on(spec@.subrange(0, i), '.');
    let leaf = override_value(o.value.as_str());
    let ghost lv = leaf;
    let ghost tail = segs.drop_first();
    assert forall|q: int| 0 <= q < tail.len() implies step_matches(#[trigger] o.steps@[q], tail[q]) by {
        assert(step_matches(o.steps@[q], segs[q + 1]));
    }
    let mut t: Vec<(String, TomlValue)> = Vec::new();
    std::mem::swap(&mut t, root);
    let ghost before = t@;
    set_entry_in(&mut t, &o.root, &o.steps, 0, leaf, Ghost(tail));
    assert(tail.subrange(0, tail.len() as int) =~= tail);
    std::mem::swap(&mut t, root);
    assert(set_entry(before, segs[0], tail, lv, root@));
    Ok(())
}

/// The value found at the path `segs` below `cur`, reading as the
/// override writes: a segment that reads as a `usize` indexes an array,
/// any other takes the first entry of a table with that key.
pub open spec fn value_at(cur: TomlValue, segs: Seq<Seq<char>>) -> Option<TomlValue>
    decreases segs.len(), 0int,
{
    if segs.len() == 0 {
        Some(cur)
    } else {
        match parse_usize_spec(segs[0]) {
            Some(n) => match cur {
                TomlValue::Array(a) => if n < a@.len() {
                    value_at(a@[n as int], segs.drop_first())
                } else {
                    None
                },
                _ => None,
            },
            None => match cur {
                TomlValue::Table(t) => entry_at(t@, segs[0], segs.drop_first()),
                _ => None,
            },
        }
    }
}

/// The value at key `k` and then the path `rest` in the table `t`.
pub open spec fn entry_at(t: Seq<(String, TomlValue)>, k: Seq<char>, rest: Seq<Seq<char>>) -> Option<TomlValue>
    decreases rest.len(), 1int,
{
    match first_key(t, k) {
        Some(i) => if 0 <= i < t.len() {
            value_at(t[i].1, rest)
        } else {
            None
        },
        None => None,
    }
}

proof fn lemma_first_key_at(t: Seq<(String, TomlValue)>, k: Seq<char>, i: int)
    requires
        0 <= i < t.len(),
        t[i].0@ == k,
        forall|j: int| 0 <= j < i ==> (#[trigger] t[j]).0@ != k,
    ensures
        first_key(t, k) == Some(i),
{
    reveal(first_key);
    let c = choose|c: int| 0 <= c < t.len() && (#[trigger] t[c]).0@ == k
        && forall|j: int| 0 <= j < c ==> (#[trigger] t[j]).0@ != k;
    assert(0 <= c < t.len() && t[c].0@ == k && forall|j: int| 0 <= j < c ==> (#[trigger] t[j]).0@ != k);
    if c < i {
        assert(t[c].0@ != k);
    }
    if c > i {
        assert(t[i].0@ != k);
    }
}

proof fn lemma_first_key_minimal(t: Seq<(String, TomlValue)>, k: Seq<char>, i: int)
    requires
        0 <= i < t.len(),
        t[i].0@ == k,
    ensures
        exists|c: int| 0 <= c < t.len() && (#[trigger] t[c]).0@ == k
            && forall|j: int| 0 <= j < c ==> (#[trigger] t[j]).0@ != k,
    decreases i,
{
    if exists|j: int| 0 <= j < i && (#[trigger] t[j]).0@ == k {
        let j = choose|j: int| 0 <= j < i && (#[trigger] t[j]).0@ == k;
        lemma_first_key_minimal(t, k, j);
    } else {
        assert(forall|j: int| 0 <= j < i ==> (#[trigger] t[j]).0@ != k);
    }
}

proof fn lemma_first_key_props(t: Seq<(String, TomlValue)>, k: Seq<char>)
    ensures
        first_key(t, k) matches Some(i) ==> 0 <= i < t.len() && t[i].0@ == k && forall|j: int|
            0 <= j < i ==> (#[trigger] t[j]).0@ != k,
        first_key(t, k) is None ==> forall|j: int| 0 <= j < t.len() ==> (#[trigger] t[j]).0@ != k,
{
    reveal(first_key);
    if exists|i: int| 0 <= i < t.len() && (#[trigger] t[i]).0@ == k {
        let i = choose|i: int| 0 <= i < t.len() && (#[trigger] t[i]).0@ == k;
        lemma_first_key_minimal(t, k, i);
    }
}

/// What an override writes at a path reads back from there.
pub proof fn law_override_reads_back(cur: Option<TomlValue>, segs: Seq<Seq<char>>, leaf: TomlValue, new: TomlValue)
    requires
        set_rel(cur, segs, leaf, new),
    ensures
        value_at(new, segs) == Some(leaf),
    decreases segs.len(), 0int,
{
    if segs.len() > 0 {
        match parse_usize_spec(segs[0]) {
            Some(n) => {
                let oa = array_items(cur);
                match new {
                    TomlValue::Array(na) => {
                        law_override_reads_back(
                            if n < oa.len() { Some(oa[n as int]) } else { None },
                            segs.drop_first(),
                            leaf,
                            na@[n as int],
                        );
                    },
                    _ => {},
                }
            },
            None => match new {
                TomlValue::Table(nt) => {
                    law_override_entry_reads_back(table_entries(cur), segs[0], segs.drop_first(), leaf, nt@);
                },
                _ => {},
            },
        }
    }
}

/// What an override writes at a key and path of a table reads back from
/// there; for the root table this is what `apply_override` promises.
#[verifier::rlimit(50)]
pub proof fn law_override_entry_reads_back(
    t: Seq<(String, TomlValue)>,
    k: Seq<char>,
    rest: Seq<Seq<char>>,
    leaf: TomlValue,
    nt: Seq<(String, TomlValue)>,
)
    requires
        set_entry(t, k, rest, leaf, nt),
    ensures
        entry_at(nt, k, rest) == Some(leaf),
    decreases rest.len(), 1int,
{
    lemma_first_key_props(t, k);
    match first_key(t, k) {
        Some(i) => {
            assert forall|j: int| 0 <= j < i implies (#[trigger] nt[j]).0@ != k by {
                assert(nt[j] == t[j]);
                assert(t[j].0@ != k);
            }
            lemma_first_key_at(nt, k, i);
            law_override_reads_back(Some(t[i].1), rest, leaf, nt[i].1);
            assert(entry_at(nt, k, rest) == value_at(nt[i].1, rest));
        },
        None => {
            assert forall|j: int| 0 <= j < t.len() implies (#[trigger] nt[j]).0@ != k by {
                assert(nt[j] == t[j]);
                assert(t[j].0@ != k);
            }
            lemma_first_key_at(nt, k, t.len() as int);
            law_override_reads_back(None, rest, leaf, nt[t.len() as int].1);
            assert(entry_at(nt, k, rest) == value_at(nt[t.len() as int].1, rest));
        },
    }
}

/// The texts of some strings.
pub open spec fn texts_of(specs: Seq<String>) -> Seq<Seq<char>> {
    specs.map_values(|s: String| s@)
}

proof fn lemma_applied_step(
    prev: Seq<(String, TomlValue)>,
    specs: Seq<Seq<char>>,
    mid: Seq<(String, TomlValue)>,
    new: Seq<(String, TomlValue)>,
)
    requires
        specs.len() > 0,
        overrides_applied(prev, specs.drop_last(), mid),
        override_applied(mid, specs.last(), new),
    ensures
        overrides_applied(prev, specs, new),
{
}

/// Applies the `-o` overrides in order.  The first malformed one stops
/// the run with its message; the tree then holds the ones before it.
pub fn apply_overrides(root: &mut Vec<(String, TomlValue)>, specs: &Vec<String>) -> (r: Result<(), ConfigError>)
    ensures
        match r {
            Ok(_) => overrides_applied(old(root)@, texts_of(specs@), final(root)@),
            Err(ConfigError::Invalid(m)) => exists|k: int|
                0 <= k < specs@.len() && (forall|j: int| 0 <= j < k ==> override_error((#[trigger] specs@[j])@) is None)
                    && override_error(specs@[k]@) == Some(m@) && exists|mid: Seq<(String, TomlValue)>|
                    overrides_applied(old(root)@, texts_of(specs@).take(k), mid)
                        && #[trigger] tree_after_error(specs@[k]@, mid, final(root)@),
        },
{
    let ghost texts = texts_of(specs@);
    let mut i: usize = 0;
    while i < specs.len()
        invariant
            i <= specs@.len(),
            texts == texts_of(specs@),
            overrides_applied(old(root)@, texts.take(i as int), root@),
            forall|j: int| 0 <= j < i ==> override_error((#[trigger] specs@[j])@) is None,
        decreases specs@.len() - i,
    {
        let ghost before = root@;
        match apply_override(root, specs[i].as_str()) {
            Ok(_) => {
                proof {
                    let t = texts.take(i + 1);
                    assert(texts.len() == specs@.len());
                    assert(t.len() == i + 1);
                    assert(t.drop_last() =~= texts.take(i as int));
                    assert(t.last() == specs@[i as int]@);
                    assert(overrides_applied(old(root)@, t.drop_last(), before));
                    lemma_applied_step(old(root)@, t, before, root@);
                }
            },
            Err(m) => {
                proof {
                    assert(overrides_applied(old(root)@, texts.take(i as int), before));
                }
                return Err(ConfigError::Invalid(m));
            },
        }
        i += 1;
    }
    assert(texts.take(i as int) =~= texts);
    Ok(())
}

} // verus!
