use vstd::prelude::*;

verus! {

/// The mathematical form of a structured document.
pub enum Tree {
    Null,
    Bool(bool),
    Int(int),
    Float(Seq<char>),
    Str(Seq<char>),
    Sequence(Seq<Tree>),
    Mapping(Seq<(Seq<char>, Tree)>),
}

/// A structured document: scalars, sequences and mappings with text keys.
#[derive(Debug, PartialEq)]
pub enum Value {
    Null,
    Bool(bool),
    Int(i64),
    /// A number in decimal notation that is not an `i64` (a fraction, an exponent), as
    /// written.
    Float(String),
    Str(String),
    Sequence(Vec<Value>),
    /// Entries in document order; keys are unique in a well-formed document.
    Mapping(Vec<(String, Value)>),
}

pub open spec fn tree_of(v: Value) -> Tree
    decreases v,
{
    match v {
        Value::Null => Tree::Null,
        Value::Bool(b) => Tree::Bool(b),
        Value::Int(n) => Tree::Int(n as int),
        Value::Float(s) => Tree::Float(s@),
        Value::Str(s) => Tree::Str(s@),
        Value::Sequence(items) => Tree::Sequence(trees_of(items@)),
        Value::Mapping(entries) => Tree::Mapping(entries_of(entries@)),
    }
}

pub open spec fn trees_of(s: Seq<Value>) -> Seq<Tree>
    decreases s,
{
    if s.len() == 0 {
        Seq::empty()
    } else {
        trees_of(s.subrange(0, s.len() - 1)).push(tree_of(s[s.len() - 1]))
    }
}

pub open spec fn entries_of(s: Seq<(String, Value)>) -> Seq<(Seq<char>, Tree)>
    decreases s,
{
    if s.len() == 0 {
        Seq::empty()
    } else {
        entries_of(s.subrange(0, s.len() - 1)).push(
            (s[s.len() - 1].0@, tree_of(s[s.len() - 1].1)),
        )
    }
}

impl View for Value {
    type V = Tree;

    open spec fn view(&self) -> Tree {
        tree_of(*self)
    }
}

} // verus!

verus! {

/// The address of a position: the root (`None`) has the empty address.
pub open spec fn address_of(prefix: Option<Seq<char>>) -> Seq<char> {
    match prefix {
        Some(p) => p,
        None => Seq::empty(),
    }
}

/// The address of `key` in the mapping at `prefix`: the key alone at the root, else the
/// parent's address, a dot and the key.
pub open spec fn join_key(prefix: Option<Seq<char>>, key: Seq<char>) -> Seq<char> {
    match prefix {
        Some(p) => p + seq!['.'] + key,
        None => key,
    }
}

/// Depth-first listing of the leaves of `t` at the position `prefix`: a mapping is
/// descended into entry by entry, an empty sequence has no leaf, anything else is one
/// leaf.
pub open spec fn flatten(t: Tree, prefix: Option<Seq<char>>) -> Seq<(Seq<char>, Tree)>
    decreases t,
{
    match t {
        Tree::Mapping(es) => flatten_entries(es, prefix),
        Tree::Sequence(items) => if items.len() == 0 {
            Seq::empty()
        } else {
            seq![(address_of(prefix), t)]
        },
        _ => seq![(address_of(prefix), t)],
    }
}

pub open spec fn flatten_entries(es: Seq<(Seq<char>, Tree)>, prefix: Option<Seq<char>>) -> Seq<
    (Seq<char>, Tree),
>
    decreases es,
{
    if es.len() == 0 {
        Seq::empty()
    } else {
        let last = es[es.len() - 1];
        flatten_entries(es.subrange(0, es.len() - 1), prefix) + flatten(
            last.1,
            Some(join_key(prefix, last.0)),
        )
    }
}

/// The flattened address table of a whole document.
pub open spec fn leaves(t: Tree) -> Seq<(Seq<char>, Tree)> {
    flatten(t, None)
}

pub open spec fn opt_text(o: Option<String>) -> Option<Seq<char>> {
    match o {
        Some(s) => Some(s@),
        None => None,
    }
}

/// The pieces of `s` between dots, in order; there is always at least one.
pub open spec fn split_dots(s: Seq<char>) -> Seq<Seq<char>>
    decreases s.len(),
{
    if s.len() == 0 {
        seq![Seq::empty()]
    } else {
        let rest = split_dots(s.drop_last());
        if s.last() == '.' {
            rest.push(Seq::empty())
        } else {
            rest.update(rest.len() - 1, rest.last().push(s.last()))
        }
    }
}

/// Position of the first entry with key `k`, or -1.
pub open spec fn key_index(es: Seq<(Seq<char>, Tree)>, k: Seq<char>) -> int
    decreases es.len(),
{
    if es.len() == 0 {
        -1
    } else {
        let r = key_index(es.drop_last(), k);
        if r >= 0 {
            r
        } else if es.last().0 == k {
            es.len() - 1
        } else {
            -1
        }
    }
}

/// Overwrites the entry at `i` in place, or appends a new one when `i` is -1.
pub open spec fn put_entry(es: Seq<(Seq<char>, Tree)>, i: int, k: Seq<char>, v: Tree) -> Seq<
    (Seq<char>, Tree),
> {
    if i >= 0 {
        es.update(i, (k, v))
    } else {
        es.push((k, v))
    }
}

/// Stores `leaf` at the end of `path`, following mapping keys and creating empty
/// mappings for missing ones; `None` when a step meets something that is not a mapping.
pub open spec fn set_path(t: Tree, path: Seq<Seq<char>>, leaf: Tree) -> Option<Tree>
    decreases path.len(),
{
    if path.len() == 0 {
        Some(leaf)
    } else {
        match t {
            Tree::Mapping(es) => {
                let i = key_index(es, path[0]);
                if path.len() == 1 {
                    Some(Tree::Mapping(put_entry(es, i, path[0], leaf)))
                } else {
                    let child = if i >= 0 {
                        es[i].1
                    } else {
                        Tree::Mapping(Seq::empty())
                    };
                    match set_path(child, path.skip(1), leaf) {
                        Some(c) => Some(Tree::Mapping(put_entry(es, i, path[0], c))),
                        None => None,
                    }
                }
            },
            _ => None,
        }
    }
}

pub open spec fn seg_views(segs: Seq<String>) -> Seq<Seq<char>> {
    segs.map_values(|s: String| s@)
}

pub proof fn lemma_trees_of(s: Seq<Value>)
    ensures
        trees_of(s).len() == s.len(),
        forall|i: int| 0 <= i < s.len() ==> #[trigger] trees_of(s)[i] == tree_of(s[i]),
    decreases s.len(),
{
    if s.len() > 0 {
        lemma_trees_of(s.subrange(0, s.len() - 1));
    }
}

pub proof fn lemma_entries_of(s: Seq<(String, Value)>)
    ensures
        entries_of(s).len() == s.len(),
        forall|i: int|
            0 <= i < s.len() ==> #[trigger] entries_of(s)[i] == (s[i].0@, tree_of(s[i].1)),
    decreases s.len(),
{
    if s.len() > 0 {
        lemma_entries_of(s.subrange(0, s.len() - 1));
    }
}

proof fn lemma_split_dots_nonempty(s: Seq<char>)
    ensures
        split_dots(s).len() >= 1,
    decreases s.len(),
{
    if s.len() > 0 {
        lemma_split_dots_nonempty(s.drop_last());
    }
}

proof fn lemma_key_index_range(es: Seq<(Seq<char>, Tree)>, k: Seq<char>)
    ensures
        -1 <= key_index(es, k) < es.len(),
        key_index(es, k) >= 0 ==> es[key_index(es, k)].0 == k,
        key_index(es, k) == -1 ==> forall|j: int| 0 <= j < es.len() ==> es[j].0 != k,
    decreases es.len(),
{
    if es.len() > 0 {
        lemma_key_index_range(es.drop_last(), k);
        if key_index(es, k) == -1 {
            assert forall|j: int| 0 <= j < es.len() implies es[j].0 != k by {
                if j < es.len() - 1 {
                    assert(es[j] == es.drop_last()[j]);
                }
            }
        }
    }
}

proof fn lemma_key_index_prefix(es: Seq<(Seq<char>, Tree)>, m: int, k: Seq<char>)
    requires
        0 <= m <= es.len(),
        key_index(es.subrange(0, m), k) >= 0,
    ensures
        key_index(es, k) == key_index(es.subrange(0, m), k),
    decreases es.len(),
{
    if m == es.len() {
        assert(es.subrange(0, m) =~= es);
    } else {
        assert(es.drop_last().subrange(0, m) =~= es.subrange(0, m));
        lemma_key_index_prefix(es.drop_last(), m, k);
    }
}

impl Value {
    /// A copy of the whole document.
    #[verifier::loop_isolation(false)]
    pub fn deep_clone(&self) -> (r: Value)
        ensures
            r@ == self@,
        decreases self,
    {
        match self {
            Value::Null => Value::Null,
            Value::Bool(b) => Value::Bool(*b),
            Value::Int(n) => Value::Int(*n),
            Value::Float(s) => Value::Float(s.clone()),
            Value::Str(s) => Value::Str(s.clone()),
            Value::Sequence(items) => {
                let mut out: Vec<Value> = Vec::new();
                let mut i: usize = 0;
                while i < items.len()
                    invariant
                        i <= items.len(),
                        trees_of(out@) == trees_of(items@.subrange(0, i as int)),
                    decreases items.len() - i,
                {
                    proof {
                        assert(decreases_to!(*self => (*self)->Sequence_0));
                        assert(decreases_to!(*items => items@));
                        assert(decreases_to!(items@ => items@[i as int]));
                    }
                    let c = items[i].deep_clone();
                    proof {
                        assert(out@.push(c).subrange(0, out@.len() as int) =~= out@);
                        assert(items@.subrange(0, i + 1).subrange(0, i as int) =~= items@.subrange(
                            0,
                            i as int,
                        ));
                    }
                    out.push(c);
                    i = i + 1;
                }
                assert(items@.subrange(0, items@.len() as int) =~= items@);
                Value::Sequence(out)
            },
            Value::Mapping(es) => {
                let mut out: Vec<(String, Value)> = Vec::new();
                let mut i: usize = 0;
                while i < es.len()
                    invariant
                        i <= es.len(),
                        entries_of(out@) == entries_of(es@.subrange(0, i as int)),
                    decreases es.len() - i,
                {
                    proof {
                        assert(decreases_to!(*self => (*self)->Mapping_0));
                        assert(decreases_to!(*es => es@));
                        assert(decreases_to!(es@ => es@[i as int]));
                        assert(decreases_to!(es@[i as int] => es@[i as int].1));
                    }
                    let c = es[i].1.deep_clone();
                    let k = es[i].0.clone();
                    proof {
                        assert(out@.push((k, c)).subrange(0, out@.len() as int) =~= out@);
                        assert(es@.subrange(0, i + 1).subrange(0, i as int) =~= es@.subrange(
                            0,
                            i as int,
                        ));
                    }
                    out.push((k, c));
                    i = i + 1;
                }
                assert(es@.subrange(0, es@.len() as int) =~= es@);
                Value::Mapping(out)
            },
        }
    }
}

} // verus!

verus! {

/// The address of `key` in the mapping at `prefix` (see `join_key`).
fn join_address(prefix: &Option<String>, key: &String) -> (r: String)
    ensures
        r@ == join_key(opt_text(*prefix), key@),
{
    match prefix {
        Some(p) => {
            proof {
                reveal_strlit(".");
            }
            let with_dot = p.clone().concat(".");
            let r = with_dot.concat(key.as_str());
            r
        },
        None => key.clone(),
    }
}

proof fn lemma_entries_of_append(a: Seq<(String, Value)>, b: Seq<(String, Value)>)
    ensures
        entries_of(a + b) == entries_of(a) + entries_of(b),
{
    lemma_entries_of(a);
    lemma_entries_of(b);
    lemma_entries_of(a + b);
    assert(entries_of(a + b) =~= entries_of(a) + entries_of(b));
}

/// Appends the leaves of `value`, addressed below `prefix`, to `flat_vec`.
#[verifier::loop_isolation(false)]
fn flatten_recursive(value: &Value, prefix: Option<String>, flat_vec: &mut Vec<(String, Value)>)
    ensures
        entries_of(final(flat_vec)@) == entries_of(old(flat_vec)@) + flatten(
            value@,
            opt_text(prefix),
        ),
    decreases value,
{
    match value {
        Value::Mapping(map) => {
            let ghost es = entries_of(map@);
            proof {
                lemma_entries_of(map@);
                assert(es.subrange(0, 0) =~= Seq::<(Seq<char>, Tree)>::empty());
                assert(entries_of(flat_vec@) =~= entries_of(old(flat_vec)@) + flatten_entries(
                    es.subrange(0, 0),
                    opt_text(prefix),
                ));
            }
            let mut i: usize = 0;
            while i < map.len()
                invariant
                    i <= map.len(),
                    entries_of(flat_vec@) == entries_of(old(flat_vec)@) + flatten_entries(
                        es.subrange(0, i as int),
                        opt_text(prefix),
                    ),
                decreases map.len() - i,
            {
                proof {
                    assert(decreases_to!(*value => (*value)->Mapping_0));
                    assert(decreases_to!(*map => map@));
                    assert(decreases_to!(map@ => map@[i as int]));
                    assert(decreases_to!(map@[i as int] => map@[i as int].1));
                }
                let new_prefix = join_address(&prefix, &map[i].0);
                flatten_recursive(&map[i].1, Some(new_prefix), flat_vec);
                proof {
                    let sub = es.subrange(0, i + 1);
                    assert(sub.subrange(0, i as int) =~= es.subrange(0, i as int));
                    assert(sub[sub.len() - 1] == es[i as int]);
                    assert(entries_of(flat_vec@) =~= entries_of(old(flat_vec)@) + flatten_entries(
                        sub,
                        opt_text(prefix),
                    ));
                }
                i = i + 1;
            }
            proof {
                assert(es.subrange(0, map@.len() as int) =~= es);
            }
        },
        Value::Sequence(items) if items.len() == 0 => {
            proof {
                lemma_trees_of(items@);
                assert(entries_of(flat_vec@) =~= entries_of(old(flat_vec)@) + flatten(
                    value@,
                    opt_text(prefix),
                ));
            }
        },
        _ => {
            let c = value.deep_clone();
            let address = match prefix {
                Some(p) => p,
                None => String::new(),
            };
            let ghost before = flat_vec@;
            flat_vec.push((address, c));
            proof {
                lemma_entries_of_append(before, seq![(address, c)]);
                assert(before.push((address, c)) =~= before + seq![(address, c)]);
                assert(entries_of(seq![(address, c)]) =~= seq![(address@, c@)]) by {
                    lemma_entries_of(seq![(address, c)]);
                }
                if let Value::Sequence(items) = value {
                    lemma_trees_of(items@);
                }
            }
        },
    }
}

/// The flattened address table of `value`: each leaf with its dot-joined address,
/// in depth-first order.
pub fn flatten_value(value: &Value) -> (r: Vec<(String, Value)>)
    ensures
        entries_of(r@) == leaves(value@),
{
    let mut flat_vec: Vec<(String, Value)> = Vec::new();
    proof {
        assert(entries_of(flat_vec@) =~= Seq::<(Seq<char>, Tree)>::empty());
    }
    flatten_recursive(value, None, &mut flat_vec);
    proof {
        assert(entries_of(flat_vec@) =~= leaves(value@));
    }
    flat_vec
}

/// The address at position `index` of a fresh flattening of `yaml_value`.
pub fn get_flattened_key_by_index(yaml_value: &Value, index: usize) -> (r: Option<String>)
    ensures
        index < leaves(yaml_value@).len() ==> (r matches Some(k) && k@ == leaves(
            yaml_value@,
        )[index as int].0),
        index >= leaves(yaml_value@).len() ==> r is None,
{
    let kv_pairs = flatten_value(yaml_value);
    proof {
        lemma_entries_of(kv_pairs@);
    }
    if index < kv_pairs.len() {
        Some(kv_pairs[index].0.clone())
    } else {
        None
    }
}

} // verus!

verus! {

/// Why an edit of a document was refused.
#[derive(PartialEq, Eq, Structural, Debug, Clone, Copy)]
pub enum EditError {
    /// A step of the address meets a value that is not a mapping.
    PathConflict,
}

pub open spec fn is_digit(c: char) -> bool {
    '0' <= c && c <= '9'
}

/// The number written by the decimal digits `d`.
pub open spec fn digits_value(d: Seq<char>) -> int
    decreases d.len(),
{
    if d.len() == 0 {
        0
    } else {
        digits_value(d.drop_last()) * 10 + (d.last() as int - '0' as int)
    }
}

/// The integer written by `s`: an optional `+` or `-`, then one or more decimal digits.
pub open spec fn int_text_value(s: Seq<char>) -> Option<int> {
    let neg = s.len() > 0 && s[0] == '-';
    let signed = s.len() > 0 && (s[0] == '-' || s[0] == '+');
    let d = if signed {
        s.skip(1)
    } else {
        s
    };
    if d.len() > 0 && forall|i: int| 0 <= i < d.len() ==> is_digit(#[trigger] d[i]) {
        Some(
            if neg {
                -digits_value(d)
            } else {
                digits_value(d)
            },
        )
    } else {
        None
    }
}

/// The `i64` written by `s`, if it is an integer in range.
pub open spec fn i64_of_text(s: Seq<char>) -> Option<i64> {
    match int_text_value(s) {
        Some(v) => if i64::MIN <= v <= i64::MAX {
            Some(v as i64)
        } else {
            None
        },
        None => None,
    }
}

/// A character of a decimal number: a digit, a point, an exponent mark or a sign.
pub open spec fn is_decimal_char(c: char) -> bool {
    is_digit(c) || c == '.' || c == 'e' || c == 'E' || c == '+' || c == '-'
}

/// `s` is written in decimal notation only, so hexadecimal, octal, binary and the
/// spelled-out infinities and NaN are excluded.
pub open spec fn decimal_text(s: Seq<char>) -> bool {
    s.len() > 0 && forall|i: int| 0 <= i < s.len() ==> is_decimal_char(#[trigger] s[i])
}

/// Whether `s` is a YAML number, as serde_yaml reads one.
pub uninterp spec fn is_yaml_number(s: Seq<char>) -> bool;

/// Relies on `str::parse::<i64>`: an optional sign and decimal digits, within range.
#[verifier::external_body]
fn parse_i64(s: &str) -> (r: Option<i64>)
    ensures
        r == i64_of_text(s@),
{
    s.parse::<i64>().ok()
}

/// Relies on serde_yaml's `FromStr for Number`: whether the text reads as a YAML number.
#[verifier::external_body]
fn reads_as_number(s: &str) -> (r: bool)
    ensures
        r == is_yaml_number(s@),
{
    s.parse::<serde_yaml::Number>().is_ok()
}

/// `a` and `b` are equal once ASCII upper-case letters of `a` are lowered;
/// `b` is expected in lower case.
pub open spec fn eq_ignore_case(a: Seq<char>, b: Seq<char>) -> bool {
    a.len() == b.len() && forall|i: int|
        0 <= i < a.len() ==> (#[trigger] a[i] == b[i] || ('A' <= a[i] && a[i] <= 'Z' && a[i]
            as u32 + 32 == b[i] as u32))
}

/// The leaf that a text becomes, given whether it reads as a number: an integer,
/// else a fractional number when it is a number in decimal notation, else a boolean
/// (in any case), else the text itself.
pub open spec fn scalar_with(s: Seq<char>, is_number: bool) -> Tree {
    match i64_of_text(s) {
        Some(n) => Tree::Int(n as int),
        None => if is_number && decimal_text(s) {
            Tree::Float(s)
        } else if eq_ignore_case(s, seq!['t', 'r', 'u', 'e']) {
            Tree::Bool(true)
        } else if eq_ignore_case(s, seq!['f', 'a', 'l', 's', 'e']) {
            Tree::Bool(false)
        } else {
            Tree::Str(s)
        },
    }
}

/// The leaf that `set_nested_value_mut` stores for a text.
pub open spec fn scalar_of_text(s: Seq<char>) -> Tree {
    scalar_with(s, is_yaml_number(s))
}

fn eq_ignore_ascii_case(a: &str, b: &str) -> (r: bool)
    ensures
        r == eq_ignore_case(a@, b@),
{
    let n = a.unicode_len();
    if n != b.unicode_len() {
        return false;
    }
    let mut i: usize = 0;
    while i < n
        invariant
            n == a@.len() == b@.len(),
            i <= n,
            forall|j: int|
                0 <= j < i ==> (#[trigger] a@[j] == b@[j] || ('A' <= a@[j] && a@[j] <= 'Z'
                    && a@[j] as u32 + 32 == b@[j] as u32)),
        decreases n - i,
    {
        let x = a.get_char(i);
        let y = b.get_char(i);
        if !(x == y || ('A' <= x && x <= 'Z' && x as u32 + 32 == y as u32)) {
            return false;
        }
        i = i + 1;
    }
    true
}

fn is_decimal_text(s: &str) -> (r: bool)
    ensures
        r == decimal_text(s@),
{
    let n = s.unicode_len();
    if n == 0 {
        return false;
    }
    let mut i: usize = 0;
    while i < n
        invariant
            n == s@.len(),
            i <= n,
            forall|j: int| 0 <= j < i ==> is_decimal_char(#[trigger] s@[j]),
        decreases n - i,
    {
        let c = s.get_char(i);
        if !(('0' <= c && c <= '9') || c == '.' || c == 'e' || c == 'E' || c == '+' || c == '-') {
            return false;
        }
        i = i + 1;
    }
    true
}

/// The leaf for `text`, once it is known whether `text` reads as a number.
pub fn scalar_from_text(text: String, is_number: bool) -> (r: Value)
    ensures
        r@ == scalar_with(text@, is_number),
{
    match parse_i64(text.as_str()) {
        Some(n) => Value::Int(n),
        None => {
            proof {
                reveal_strlit("true");
                reveal_strlit("false");
            }
            if is_number && is_decimal_text(text.as_str()) {
                Value::Float(text)
            } else if eq_ignore_ascii_case(text.as_str(), "true") {
                Value::Bool(true)
            } else if eq_ignore_ascii_case(text.as_str(), "false") {
                Value::Bool(false)
            } else {
                Value::Str(text)
            }
        },
    }
}

/// The leaf for `text`: an integer, else a number, else a boolean, else the text.
pub fn parse_scalar(text: String) -> (r: Value)
    ensures
        r@ == scalar_of_text(text@),
{
    let is_number = reads_as_number(text.as_str());
    scalar_from_text(text, is_number)
}

} // verus!

verus! {

/// The pieces of `address` between dots.
pub fn split_address(address: &str) -> (r: Vec<String>)
    ensures
        seg_views(r@) == split_dots(address@),
{
    let n = address.unicode_len();
    let mut parts: Vec<String> = Vec::new();
    let mut start: usize = 0;
    proof {
        assert(address@.subrange(0, 0) =~= Seq::<char>::empty());
        assert(seg_views(parts@).push(address@.subrange(0, 0)) =~= split_dots(
            address@.subrange(0, 0),
        ));
    }
    let mut i: usize = 0;
    while i < n
        invariant
            n == address@.len(),
            start <= i <= n,
            seg_views(parts@).push(address@.subrange(start as int, i as int)) == split_dots(
                address@.subrange(0, i as int),
            ),
        decreases n - i,
    {
        let c = address.get_char(i);
        let ghost s = address@.subrange(0, i + 1);
        proof {
            assert(s.drop_last() =~= address@.subrange(0, i as int));
            assert(s.last() == c);
        }
        if c == '.' {
            let piece = String::from_str(address.substring_char(start, i));
            let ghost before = parts@;
            parts.push(piece);
            start = i + 1;
            proof {
                assert(seg_views(parts@) =~= seg_views(before).push(piece@));
                assert(address@.subrange(start as int, i + 1) =~= Seq::<char>::empty());
                assert(seg_views(parts@).push(address@.subrange(start as int, i + 1)) =~= split_dots(
                    s,
                ));
            }
        } else {
            proof {
                let rest = split_dots(address@.subrange(0, i as int));
                assert(address@.subrange(start as int, i + 1) =~= address@.subrange(
                    start as int,
                    i as int,
                ).push(c));
                assert(seg_views(parts@).push(address@.subrange(start as int, i + 1)) =~= rest.update(
                    rest.len() - 1,
                    rest.last().push(c),
                ));
            }
        }
        i = i + 1;
    }
    let last = String::from_str(address.substring_char(start, n));
    let ghost before = parts@;
    parts.push(last);
    proof {
        assert(address@.subrange(0, n as int) =~= address@);
        assert(seg_views(parts@) =~= seg_views(before).push(last@));
    }
    parts
}

/// Position of the first entry of `es` whose key is `k`.
#[verifier::loop_isolation(false)]
fn find_key(es: &Vec<(String, Value)>, k: &String) -> (r: Option<usize>)
    ensures
        match r {
            Some(j) => key_index(entries_of(es@), k@) == j as int,
            None => key_index(entries_of(es@), k@) == -1,
        },
{
    let ghost e = entries_of(es@);
    proof {
        lemma_entries_of(es@);
    }
    let mut i: usize = 0;
    while i < es.len()
        invariant
            i <= es.len(),
            e == entries_of(es@),
            e.len() == es@.len(),
            key_index(e.subrange(0, i as int), k@) == -1,
        decreases es.len() - i,
    {
        let ghost sub = e.subrange(0, i + 1);
        proof {
            assert(sub.drop_last() =~= e.subrange(0, i as int));
        }
        if es[i].0 == *k {
            proof {
                assert(sub.last() == e[i as int]);
                assert(key_index(sub, k@) == i);
                lemma_key_index_prefix(e, i + 1, k@);
            }
            return Some(i);
        }
        i = i + 1;
    }
    proof {
        assert(e.subrange(0, es@.len() as int) =~= e);
    }
    None
}

} // verus!

verus! {

proof fn lemma_entries_of_update(s: Seq<(String, Value)>, j: int, x: (String, Value))
    requires
        0 <= j < s.len(),
    ensures
        entries_of(s.update(j, x)) == entries_of(s).update(j, (x.0@, tree_of(x.1))),
{
    lemma_entries_of(s);
    lemma_entries_of(s.update(j, x));
    assert(entries_of(s.update(j, x)) =~= entries_of(s).update(j, (x.0@, tree_of(x.1))));
}

proof fn lemma_entries_of_push(s: Seq<(String, Value)>, x: (String, Value))
    ensures
        entries_of(s.push(x)) == entries_of(s).push((x.0@, tree_of(x.1))),
{
    assert(s.push(x).drop_last() =~= s);
}

proof fn lemma_set_path_fresh(path: Seq<Seq<char>>, leaf: Tree)
    ensures
        set_path(Tree::Mapping(Seq::empty()), path, leaf) is Some,
    decreases path.len(),
{
    if path.len() > 1 {
        lemma_set_path_fresh(path.skip(1), leaf);
    }
}

/// Keys are unique within every mapping of the document.
pub open spec fn well_formed(t: Tree) -> bool
    decreases t,
{
    match t {
        Tree::Sequence(items) => forall|i: int|
            0 <= i < items.len() ==> well_formed(#[trigger] items[i]),
        Tree::Mapping(es) => unique_keys(es) && forall|i: int|
            0 <= i < es.len() ==> well_formed(#[trigger] es[i].1),
        _ => true,
    }
}

proof fn lemma_put_entry_well_formed(es: Seq<(Seq<char>, Tree)>, k: Seq<char>, v: Tree)
    requires
        well_formed(Tree::Mapping(es)),
        well_formed(v),
    ensures
        well_formed(Tree::Mapping(put_entry(es, key_index(es, k), k, v))),
{
    lemma_key_index_range(es, k);
    let i = key_index(es, k);
    let es2 = put_entry(es, i, k, v);
    assert forall|a: int, b: int| 0 <= a < b < es2.len() implies es2[a].0 != es2[b].0 by {
        if i < 0 {
            if b == es.len() {
                assert(es2[a] == es[a]);
            }
        }
    }
    assert forall|j: int| 0 <= j < es2.len() implies well_formed(#[trigger] es2[j].1) by {
        if j != i && j < es.len() {
            assert(es2[j] == es[j]);
        }
    }
}

proof fn lemma_set_path_well_formed(t: Tree, path: Seq<Seq<char>>, leaf: Tree)
    requires
        well_formed(t),
        well_formed(leaf),
    ensures
        set_path(t, path, leaf) matches Some(t2) ==> well_formed(t2),
    decreases path.len(),
{
    if path.len() > 1 {
        if let Tree::Mapping(es) = t {
            let i = key_index(es, path[0]);
            lemma_key_index_range(es, path[0]);
            let child = if i >= 0 {
                es[i].1
            } else {
                Tree::Mapping(Seq::empty())
            };
            lemma_set_path_well_formed(child, path.skip(1), leaf);
            if let Some(c) = set_path(child, path.skip(1), leaf) {
                lemma_put_entry_well_formed(es, path[0], c);
            }
        }
    } else if path.len() == 1 {
        if let Tree::Mapping(es) = t {
            lemma_put_entry_well_formed(es, path[0], leaf);
        }
    }
}

/// Stores `leaf` at the path `segs[i..]` of `t`; on a conflict `t` comes back as it was.
fn set_in(t: Value, segs: &Vec<String>, i: usize, leaf: Value) -> (r: Result<Value, Value>)
    requires
        i < segs.len(),
    ensures
        match r {
            Ok(v) => set_path(t@, seg_views(segs@).skip(i as int), leaf@) == Some(v@),
            Err(v) => set_path(t@, seg_views(segs@).skip(i as int), leaf@) is None && v@ == t@,
        },
    decreases segs.len() - i,
{
    let ghost path = seg_views(segs@).skip(i as int);
    proof {
        assert(path[0] == segs@[i as int]@);
        assert(path.skip(1) =~= seg_views(segs@).skip(i + 1));
    }
    match t {
        Value::Mapping(mut es) => {
            let ghost old_es = es@;
            let ghost e = entries_of(es@);
            let k = find_key(&es, &segs[i]);
            proof {
                lemma_entries_of(es@);
                lemma_key_index_range(e, path[0]);
            }
            if i + 1 == segs.len() {
                match k {
                    Some(j) => {
                        let (key, _previous) = es.remove(j);
                        es.insert(j, (key, leaf));
                        proof {
                            assert(es@ =~= old_es.update(j as int, (key, leaf)));
                            lemma_entries_of_update(old_es, j as int, (key, leaf));
                        }
                    },
                    None => {
                        let key = segs[i].clone();
                        es.push((key, leaf));
                        proof {
                            lemma_entries_of_push(old_es, (key, leaf));
                        }
                    },
                }
                Ok(Value::Mapping(es))
            } else {
                match k {
                    Some(j) => {
                        let (key, child) = es.remove(j);
                        proof {
                            assert(child == old_es[j as int].1);
                            assert(e[j as int].1 == child@);
                        }
                        match set_in(child, segs, i + 1, leaf) {
                            Ok(c) => {
                                es.insert(j, (key, c));
                                proof {
                                    assert(es@ =~= old_es.update(j as int, (key, c)));
                                    lemma_entries_of_update(old_es, j as int, (key, c));
                                }
                                Ok(Value::Mapping(es))
                            },
                            Err(c) => {
                                es.insert(j, (key, c));
                                proof {
                                    assert(es@ =~= old_es.update(j as int, (key, c)));
                                    lemma_entries_of_update(old_es, j as int, (key, c));
                                    assert(e.update(j as int, (key@, c@)) =~= e);
                                }
                                Err(Value::Mapping(es))
                            },
                        }
                    },
                    None => {
                        let fresh = Value::Mapping(Vec::new());
                        proof {
                            assert(fresh@ == Tree::Mapping(Seq::empty())) by {
                                assert(entries_of(Seq::<(String, Value)>::empty()) =~= Seq::empty());
                            }
                            lemma_set_path_fresh(path.skip(1), leaf@);
                        }
                        match set_in(fresh, segs, i + 1, leaf) {
                            Ok(c) => {
                                let key = segs[i].clone();
                                es.push((key, c));
                                proof {
                                    lemma_entries_of_push(old_es, (key, c));
                                }
                                Ok(Value::Mapping(es))
                            },
                            Err(_) => Err(Value::Mapping(es)),
                        }
                    },
                }
            }
        },
        other => Err(other),
    }
}

/// Stores the leaf read from `new_string_value` at the dot-separated address
/// `flattened_key` of `root`, creating empty mappings for missing steps. Fails with
/// `PathConflict`, leaving `root` as it was, when a step meets a value that is not a
/// mapping.
pub fn set_nested_value_mut(root: &mut Value, flattened_key: &str, new_string_value: String) -> (r:
    Result<(), EditError>)
    ensures
        match set_path(old(root)@, split_dots(flattened_key@), scalar_of_text(new_string_value@)) {
            Some(t) => r is Ok && final(root)@ == t,
            None => r == Err::<(), EditError>(EditError::PathConflict) && final(root)@ == old(
                root,
            )@,
        },
        well_formed(old(root)@) ==> well_formed(final(root)@),
{
    let segs = split_address(flattened_key);
    let leaf = parse_scalar(new_string_value);
    proof {
        lemma_split_dots_nonempty(flattened_key@);
        assert(seg_views(segs@).skip(0) =~= seg_views(segs@));
    }
    proof {
        if well_formed(root@) {
            lemma_set_path_well_formed(root@, split_dots(flattened_key@), leaf@);
        }
    }
    let mut doc = Value::Null;
    std::mem::swap(root, &mut doc);
    match set_in(doc, &segs, 0, leaf) {
        Ok(v) => {
            *root = v;
            Ok(())
        },
        Err(v) => {
            *root = v;
            Err(EditError::PathConflict)
        },
    }
}

} // verus!

verus! {

/// A key that can stand in an address: it holds no dot.
pub open spec fn plain_key(k: Seq<char>) -> bool {
    forall|i: int| 0 <= i < k.len() ==> k[i] != '.'
}

pub open spec fn unique_keys(es: Seq<(Seq<char>, Tree)>) -> bool {
    forall|i: int, j: int| 0 <= i < j < es.len() ==> es[i].0 != es[j].0
}

/// Every mapping reached through mapping values has unique, plain keys, so that each
/// leaf has an address of its own.
pub open spec fn addressable(t: Tree) -> bool
    decreases t,
{
    match t {
        Tree::Mapping(es) => unique_keys(es) && forall|i: int|
            0 <= i < es.len() ==> plain_key(#[trigger] es[i].0) && addressable(es[i].1),
        _ => true,
    }
}

/// The address reached from the position `p` by following the keys `q`.
pub open spec fn join_all(p: Option<Seq<char>>, q: Seq<Seq<char>>) -> Seq<char>
    decreases q.len(),
{
    if q.len() == 0 {
        address_of(p)
    } else {
        join_all(Some(join_key(p, q[0])), q.skip(1))
    }
}

proof fn lemma_split_dot_free(s: Seq<char>)
    requires
        forall|i: int| 0 <= i < s.len() ==> s[i] != '.',
    ensures
        split_dots(s) == seq![s],
    decreases s.len(),
{
    if s.len() > 0 {
        lemma_split_dot_free(s.drop_last());
        assert(s.drop_last().push(s.last()) =~= s);
        assert(seq![s.drop_last()].update(0, s.drop_last().push(s.last())) =~= seq![s]);
    } else {
        assert(s =~= Seq::<char>::empty());
    }
}

proof fn lemma_split_after_dot(p: Seq<char>, k: Seq<char>)
    requires
        forall|i: int| 0 <= i < k.len() ==> k[i] != '.',
    ensures
        split_dots(p + seq!['.'] + k) == split_dots(p).push(k),
    decreases k.len(),
{
    let s = p + seq!['.'] + k;
    if k.len() == 0 {
        assert(s.drop_last() =~= p);
        assert(k =~= Seq::<char>::empty());
    } else {
        let k0 = k.drop_last();
        assert(s.drop_last() =~= p + seq!['.'] + k0);
        lemma_split_after_dot(p, k0);
        let r = split_dots(p).push(k0);
        assert(k0.push(k.last()) =~= k);
        assert(r.update(r.len() - 1, r.last().push(s.last())) =~= split_dots(p).push(k));
    }
}

proof fn lemma_split_join_all(p: Seq<char>, q: Seq<Seq<char>>)
    requires
        forall|i: int| 0 <= i < q.len() ==> plain_key(#[trigger] q[i]),
    ensures
        split_dots(join_all(Some(p), q)) == split_dots(p) + q,
    decreases q.len(),
{
    if q.len() == 0 {
        assert(split_dots(p) + q =~= split_dots(p));
    } else {
        assert(plain_key(q[0]));
        lemma_split_after_dot(p, q[0]);
        lemma_split_join_all(join_key(Some(p), q[0]), q.skip(1));
        assert(split_dots(p).push(q[0]) + q.skip(1) =~= split_dots(p) + q);
    }
}

/// Locates leaf `n` of a mapping's entries: it is leaf `r.1` of entry `r.0`.
proof fn lemma_locate_leaf(es: Seq<(Seq<char>, Tree)>, p: Option<Seq<char>>, n: int) -> (r: (
    int,
    int,
))
    requires
        0 <= n < flatten_entries(es, p).len(),
    ensures
        0 <= r.0 < es.len(),
        0 <= r.1 < flatten(es[r.0].1, Some(join_key(p, es[r.0].0))).len(),
        flatten_entries(es, p)[n] == flatten(es[r.0].1, Some(join_key(p, es[r.0].0)))[r.1],
    decreases es.len(),
{
    let init = es.drop_last();
    let head = flatten_entries(init, p);
    if n < head.len() {
        let r = lemma_locate_leaf(init, p, n);
        assert(init[r.0] == es[r.0]);
        r
    } else {
        (es.len() - 1, n - head.len())
    }
}

/// Leaf `n` of `t` below `p` lies at the end of a path of plain keys, and storing that
/// leaf's value there gives `t` back.
proof fn lemma_leaf_path(t: Tree, p: Option<Seq<char>>, n: int) -> (q: Seq<Seq<char>>)
    requires
        addressable(t),
        0 <= n < flatten(t, p).len(),
    ensures
        flatten(t, p)[n].0 == join_all(p, q),
        set_path(t, q, flatten(t, p)[n].1) == Some(t),
        forall|i: int| 0 <= i < q.len() ==> plain_key(#[trigger] q[i]),
        t is Mapping ==> q.len() > 0,
    decreases t,
{
    match t {
        Tree::Mapping(es) => {
            let (m, n2) = lemma_locate_leaf(es, p, n);
            let k = es[m].0;
            let child = es[m].1;
            assert(plain_key(es[m].0));
            assert(decreases_to!(t => es));
            assert(decreases_to!(es => es[m]));
            let q2 = lemma_leaf_path(child, Some(join_key(p, k)), n2);
            let q = seq![k] + q2;
            let w = flatten(t, p)[n].1;
            lemma_key_index_range(es, k);
            assert(key_index(es, k) == m);
            assert(q[0] == k);
            assert(q.skip(1) =~= q2);
            assert forall|i: int| 0 <= i < q.len() implies plain_key(#[trigger] q[i]) by {
                if i > 0 {
                    assert(q[i] == q2[i - 1]);
                }
            }
            if q2.len() == 0 {
                assert(w == child);
                assert(put_entry(es, m, k, w) =~= es);
            } else {
                assert(put_entry(es, m, k, child) =~= es);
            }
            q
        },
        _ => {
            let q = Seq::<Seq<char>>::empty();
            q
        },
    }
}

/// Writing back, at the address of a leaf of a document whose keys are unique and
/// hold no dot, a text that reads as that leaf's own value gives the same document, and so
/// the same address table with the same leaves.
pub proof fn lemma_rewrite_leaf_keeps_table(doc: Tree, n: int, text: Seq<char>)
    requires
        doc is Mapping,
        addressable(doc),
        0 <= n < leaves(doc).len(),
        scalar_of_text(text) == leaves(doc)[n].1,
    ensures
        set_path(doc, split_dots(leaves(doc)[n].0), scalar_of_text(text)) == Some(doc),
        set_path(doc, split_dots(leaves(doc)[n].0), scalar_of_text(text)) matches Some(d)
            && leaves(d) == leaves(doc),
{
    let q = lemma_leaf_path(doc, None, n);
    let k = q[0];
    assert(plain_key(k));
    assert(join_key(None, k) == k);
    lemma_split_join_all(k, q.skip(1));
    lemma_split_dot_free(k);
    assert(seq![k] + q.skip(1) =~= q);
}

} // verus!
