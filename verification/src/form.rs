//! The query-parameter form (style=form, explode=false) in which the node
//! DTOs are written and read: keys and values alternate, separated by `,`.

use vstd::prelude::*;
use crate::decimal::{i32_of_text, bool_of_text, int_text, bool_text, nat_text, i32_to_text, bool_to_text, i32_from_text, bool_from_text};
use crate::text::{chars_of, push_char};

verus! {

/// Why a text could not be read as a DTO.
#[derive(Debug, Clone, Copy, PartialEq, Eq, Structural)]
pub enum FormError {
    /// The last key has no value after it.
    MissingValue,
    /// A key that the DTO does not have.
    UnexpectedKey,
    /// A key of a list-valued field, which this form cannot carry.
    UnsupportedContainer,
    /// A value that does not read as its field's type.
    InvalidValue,
    /// A required field was not given.
    MissingField,
}

/// How the value of a key is read.
#[derive(Debug, Clone, Copy, PartialEq, Eq, Structural)]
pub enum FieldKind {
    /// Taken as it stands.
    Text,
    /// Read as an `i32`.
    Int,
    /// Read as a `bool`.
    Bool,
    /// Read as a nested DTO.
    Nested,
    /// A list; the form cannot carry it.
    Container,
}

/// The pieces that `str::split(',')` cuts a text into: the text between
/// consecutive commas, so always at least one piece.
pub open spec fn split_commas(s: Seq<char>) -> Seq<Seq<char>>
    decreases s.len(),
{
    if s.len() == 0 {
        seq![Seq::<char>::empty()]
    } else {
        let rest = split_commas(s.drop_last());
        if s.last() == ',' {
            rest.push(Seq::<char>::empty())
        } else {
            rest.update(rest.len() - 1, rest.last().push(s.last()))
        }
    }
}

/// The pieces joined with `,` between them, as `[..].join(",")` writes them.
pub open spec fn join_commas(ps: Seq<Seq<char>>) -> Seq<char>
    decreases ps.len(),
{
    if ps.len() == 0 {
        Seq::<char>::empty()
    } else if ps.len() == 1 {
        ps[0]
    } else {
        join_commas(ps.drop_last()) + seq![','] + ps.last()
    }
}

/// No piece holds a comma.
pub open spec fn comma_free(s: Seq<char>) -> bool {
    !s.contains(',')
}

/// The (key, value) pairs of a form text, in order: pieces 0 and 1, 2 and 3, ...
pub open spec fn form_pairs(s: Seq<char>) -> Seq<(Seq<char>, Seq<char>)> {
    let p = split_commas(s);
    Seq::new(p.len() / 2, |j: int| (p[2 * j], p[2 * j + 1]))
}

/// The text ends with a key that has no value.
pub open spec fn form_dangling(s: Seq<char>) -> bool {
    split_commas(s).len() % 2 == 1
}

/// The kind of the first entry of `table` with this key.
pub open spec fn kind_of(table: Seq<(Seq<char>, FieldKind)>, key: Seq<char>) -> Option<FieldKind>
    decreases table.len(),
{
    if table.len() == 0 {
        None
    } else if table[0].0 == key {
        Some(table[0].1)
    } else {
        kind_of(table.drop_first(), key)
    }
}

/// What goes wrong with one (key, value) pair, if anything.
pub open spec fn pair_error(
    table: Seq<(Seq<char>, FieldKind)>,
    nested_ok: spec_fn(Seq<char>) -> bool,
    key: Seq<char>,
    val: Seq<char>,
) -> Option<FormError> {
    match kind_of(table, key) {
        None => Some(FormError::UnexpectedKey),
        Some(FieldKind::Container) => Some(FormError::UnsupportedContainer),
        Some(FieldKind::Text) => None,
        Some(FieldKind::Int) => if i32_of_text(val) is Some {
            None
        } else {
            Some(FormError::InvalidValue)
        },
        Some(FieldKind::Bool) => if bool_of_text(val) is Some {
            None
        } else {
            Some(FormError::InvalidValue)
        },
        Some(FieldKind::Nested) => if nested_ok(val) {
            None
        } else {
            Some(FormError::InvalidValue)
        },
    }
}

/// The error of the first bad pair from index `j` on.
pub open spec fn scan_error(
    pairs: Seq<(Seq<char>, Seq<char>)>,
    j: int,
    table: Seq<(Seq<char>, FieldKind)>,
    nested_ok: spec_fn(Seq<char>) -> bool,
) -> Option<FormError>
    decreases pairs.len() - j,
{
    if j < 0 || j >= pairs.len() {
        None
    } else {
        match pair_error(table, nested_ok, pairs[j].0, pairs[j].1) {
            Some(e) => Some(e),
            None => scan_error(pairs, j + 1, table, nested_ok),
        }
    }
}

/// What goes wrong when the pairs of `s` are read in order against `table`:
/// the first bad pair, else a key left without a value.
pub open spec fn form_error(
    s: Seq<char>,
    table: Seq<(Seq<char>, FieldKind)>,
    nested_ok: spec_fn(Seq<char>) -> bool,
) -> Option<FormError> {
    match scan_error(form_pairs(s), 0, table, nested_ok) {
        Some(e) => Some(e),
        None => if form_dangling(s) {
            Some(FormError::MissingValue)
        } else {
            None
        },
    }
}

/// The value of the first pair from index `j` on with this key.
pub open spec fn first_value_from(
    pairs: Seq<(Seq<char>, Seq<char>)>,
    key: Seq<char>,
    j: int,
) -> Option<Seq<char>>
    decreases pairs.len() - j,
{
    if j < 0 || j >= pairs.len() {
        None
    } else if pairs[j].0 == key {
        Some(pairs[j].1)
    } else {
        first_value_from(pairs, key, j + 1)
    }
}

/// The value given first for this key in the form text `s`.
pub open spec fn first_value(s: Seq<char>, key: Seq<char>) -> Option<Seq<char>> {
    first_value_from(form_pairs(s), key, 0)
}

/// The `i32` given first for this key.
pub open spec fn first_int(s: Seq<char>, key: Seq<char>) -> Option<i32> {
    match first_value(s, key) {
        Some(v) => i32_of_text(v),
        None => None,
    }
}

/// The `bool` given first for this key.
pub open spec fn first_bool(s: Seq<char>, key: Seq<char>) -> Option<bool> {
    match first_value(s, key) {
        Some(v) => bool_of_text(v),
        None => None,
    }
}

/// The views of a list of strings.
pub open spec fn texts(v: Seq<String>) -> Seq<Seq<char>> {
    v.map_values(|x: String| x@)
}

/// The view of an optional string.
pub open spec fn opt_text(o: Option<String>) -> Option<Seq<char>> {
    match o {
        Some(x) => Some(x@),
        None => None,
    }
}

/// The views of the (key, value) pairs.
pub open spec fn pairs_view(v: Seq<(String, String)>) -> Seq<(Seq<char>, Seq<char>)> {
    v.map_values(|p: (String, String)| (p.0@, p.1@))
}

/// The views of a table of keys.
pub open spec fn table_view(v: Seq<(&str, FieldKind)>) -> Seq<(Seq<char>, FieldKind)> {
    v.map_values(|p: (&str, FieldKind)| (p.0@, p.1))
}

/// A form text cut into its (key, value) pairs.
pub struct FormPairs {
    /// The complete pairs, in order.
    pub pairs: Vec<(String, String)>,
    /// Whether a last key was left without a value.
    pub missing_value: bool,
}

/// Two texts are equal.
pub fn text_eq(a: &str, b: &str) -> (r: bool)
    ensures
        r == (a@ == b@),
{
    let x = chars_of(a);
    let y = chars_of(b);
    if x.len() != y.len() {
        return false;
    }
    let mut i: usize = 0;
    while i < x.len()
        invariant
            x.len() == y.len(),
            x@ == a@,
            y@ == b@,
            0 <= i <= x.len(),
            forall|k: int| 0 <= k < i ==> x@[k] == y@[k],
        decreases x.len() - i,
    {
        if x[i] != y[i] {
            assert(x@[i as int] != y@[i as int]);
            return false;
        }
        i = i + 1;
    }
    assert(x@ =~= y@);
    true
}

proof fn lemma_split_len(s: Seq<char>)
    ensures
        split_commas(s).len() >= 1,
    decreases s.len(),
{
    if s.len() > 0 {
        lemma_split_len(s.drop_last());
    }
}

/// Cuts a form text into its (key, value) pairs, as `str::split(',')`
/// and alternate keys and values do.
pub fn parse(s: &str) -> (r: FormPairs)
    ensures
        pairs_view(r.pairs@) == form_pairs(s@),
        r.missing_value == form_dangling(s@),
{
    let cs = chars_of(s);
    let mut pieces: Vec<String> = Vec::new();
    let mut cur = String::new();
    let mut k: usize = 0;
    while k < cs.len()
        invariant
            0 <= k <= cs.len(),
            texts(pieces@).push(cur@) == split_commas(cs@.take(k as int)),
        decreases cs.len() - k,
    {
        let ghost before = cs@.take(k as int);
        let ghost after = cs@.take(k + 1);
        assert(after.drop_last() =~= before);
        proof { lemma_split_len(before); }
        let c = cs[k];
        if c == ',' {
            let done = cur;
            pieces.push(done);
            cur = String::new();
            assert(texts(pieces@).push(cur@) =~= split_commas(after));
        } else {
            let ghost prev = texts(pieces@).push(cur@);
            push_char(&mut cur, c);
            assert(texts(pieces@).push(cur@) =~= prev.update(prev.len() - 1, prev.last().push(c)));
        }
        k = k + 1;
    }
    assert(cs@.take(cs.len() as int) =~= s@);
    pieces.push(cur);
    assert(texts(pieces@) == split_commas(s@));
    let ghost p = split_commas(s@);
    let mut pairs: Vec<(String, String)> = Vec::new();
    let mut j: usize = 0;
    while j + 1 < pieces.len()
        invariant
            texts(pieces@) == p,
            j % 2 == 0,
            j <= pieces.len(),
            pairs@.len() == j / 2,
            forall|i: int|
                0 <= i < pairs@.len() ==> (#[trigger] pairs@[i]).0@ == p[2 * i] && pairs@[i].1@
                    == p[2 * i + 1],
        decreases pieces.len() - j,
    {
        let key = pieces[j].clone();
        let val = pieces[j + 1].clone();
        assert(key@ == p[j as int]);
        assert(val@ == p[j + 1]);
        pairs.push((key, val));
        j = j + 2;
    }
    let missing_value = j < pieces.len();
    assert(pairs_view(pairs@) =~= form_pairs(s@));
    FormPairs { pairs, missing_value }
}


pub proof fn lemma_kind_of_found(t: Seq<(Seq<char>, FieldKind)>, key: Seq<char>, i: int)
    requires
        0 <= i < t.len(),
        t[i].0 == key,
        forall|m: int| 0 <= m < i ==> t[m].0 != key,
    ensures
        kind_of(t, key) == Some(t[i].1),
    decreases i,
{
    if i > 0 {
        assert(t[0].0 != key);
        assert forall|m: int| 0 <= m < i - 1 implies t.drop_first()[m].0 != key by {
            assert(t.drop_first()[m] == t[m + 1]);
        }
        lemma_kind_of_found(t.drop_first(), key, i - 1);
    }
}

pub proof fn lemma_kind_of_absent(t: Seq<(Seq<char>, FieldKind)>, key: Seq<char>)
    requires
        forall|m: int| 0 <= m < t.len() ==> t[m].0 != key,
    ensures
        kind_of(t, key) is None,
    decreases t.len(),
{
    if t.len() > 0 {
        assert(t[0].0 != key);
        assert forall|m: int| 0 <= m < t.len() - 1 implies t.drop_first()[m].0 != key by {
            assert(t.drop_first()[m] == t[m + 1]);
        }
        lemma_kind_of_absent(t.drop_first(), key);
    }
}

/// The kind of the first entry of the table with this key.
pub fn field_kind(table: &Vec<(&str, FieldKind)>, key: &str) -> (r: Option<FieldKind>)
    ensures
        r == kind_of(table_view(table@), key@),
{
    let ghost t = table_view(table@);
    let mut i: usize = 0;
    while i < table.len()
        invariant
            t == table_view(table@),
            0 <= i <= table.len(),
            forall|m: int| 0 <= m < i ==> t[m].0 != key@,
        decreases table.len() - i,
    {
        let entry = table[i];
        if text_eq(entry.0, key) {
            proof { lemma_kind_of_found(t, key@, i as int); }
            return Some(entry.1);
        }
        i = i + 1;
    }
    proof { lemma_kind_of_absent(t, key@); }
    None
}

/// The nested-value reading of the DTOs with no nested field: none is accepted.
pub open spec fn no_nested() -> spec_fn(Seq<char>) -> bool {
    |v: Seq<char>| false
}

/// Reads the pairs in order against the table and reports the first
/// problem: a bad pair, else a key left without a value.
pub fn check_pairs(fp: &FormPairs, table: &Vec<(&str, FieldKind)>) -> (r: Option<FormError>)
    ensures
        r == (match scan_error(pairs_view(fp.pairs@), 0, table_view(table@), no_nested()) {
            Some(e) => Some(e),
            None => if fp.missing_value {
                Some(FormError::MissingValue)
            } else {
                None
            },
        }),
{
    let ghost pv = pairs_view(fp.pairs@);
    let ghost t = table_view(table@);
    let mut j: usize = 0;
    while j < fp.pairs.len()
        invariant
            pv == pairs_view(fp.pairs@),
            t == table_view(table@),
            0 <= j <= fp.pairs.len(),
            scan_error(pv, 0, t, no_nested()) == scan_error(pv, j as int, t, no_nested()),
        decreases fp.pairs.len() - j,
    {
        let key = fp.pairs[j].0.as_str();
        let val = fp.pairs[j].1.as_str();
        assert(pv[j as int] == (key@, val@));
        let err = match field_kind(table, key) {
            None => Some(FormError::UnexpectedKey),
            Some(FieldKind::Container) => Some(FormError::UnsupportedContainer),
            Some(FieldKind::Text) => None,
            Some(FieldKind::Int) => if crate::decimal::i32_from_text(val).is_some() {
                None
            } else {
                Some(FormError::InvalidValue)
            },
            Some(FieldKind::Bool) => if crate::decimal::bool_from_text(val).is_some() {
                None
            } else {
                Some(FormError::InvalidValue)
            },
            Some(FieldKind::Nested) => Some(FormError::InvalidValue),
        };
        assert(err == pair_error(t, no_nested(), key@, val@));
        if err.is_some() {
            return err;
        }
        j = j + 1;
    }
    if fp.missing_value {
        Some(FormError::MissingValue)
    } else {
        None
    }
}

/// The value given first for this key.
pub fn find_value(fp: &FormPairs, key: &str) -> (r: Option<String>)
    ensures
        opt_text(r) == first_value_from(pairs_view(fp.pairs@), key@, 0),
{
    let ghost pv = pairs_view(fp.pairs@);
    let mut j: usize = 0;
    while j < fp.pairs.len()
        invariant
            pv == pairs_view(fp.pairs@),
            0 <= j <= fp.pairs.len(),
            first_value_from(pv, key@, 0) == first_value_from(pv, key@, j as int),
        decreases fp.pairs.len() - j,
    {
        assert(pv[j as int] == (fp.pairs@[j as int].0@, fp.pairs@[j as int].1@));
        if text_eq(fp.pairs[j].0.as_str(), key) {
            return Some(fp.pairs[j].1.clone());
        }
        j = j + 1;
    }
    None
}

/// Appends a piece to a text that joins the pieces `ps` with commas.
pub(crate) fn push_joined(out: &mut String, first: bool, ps: Ghost<Seq<Seq<char>>>, piece: &str)
    requires
        old(out)@ == join_commas(ps@),
        first == (ps@.len() == 0),
    ensures
        final(out)@ == join_commas(ps@.push(piece@)),
{
    let ghost q = ps@.push(piece@);
    assert(q.drop_last() =~= ps@);
    if !first {
        push_char(out, ',');
    }
    let cs = chars_of(piece);
    let ghost start = out@;
    let mut i: usize = 0;
    while i < cs.len()
        invariant
            0 <= i <= cs.len(),
            cs@ == piece@,
            out@ == start + cs@.take(i as int),
        decreases cs.len() - i,
    {
        push_char(out, cs[i]);
        assert(cs@.take(i + 1) =~= cs@.take(i as int).push(cs@[i as int]));
        i = i + 1;
    }
    assert(cs@.take(cs.len() as int) =~= piece@);
    assert(out@ =~= join_commas(q));
}


/// The pieces of a list of (key, value) pairs: key, value, key, value, ...
pub open spec fn pair_pieces(kvs: Seq<(Seq<char>, Seq<char>)>) -> Seq<Seq<char>>
    decreases kvs.len(),
{
    if kvs.len() == 0 {
        Seq::<Seq<char>>::empty()
    } else {
        pair_pieces(kvs.drop_last()).push(kvs.last().0).push(kvs.last().1)
    }
}

/// The form text of a list of (key, value) pairs: keys and values joined by commas.
pub open spec fn form_text(kvs: Seq<(Seq<char>, Seq<char>)>) -> Seq<char> {
    join_commas(pair_pieces(kvs))
}

/// The pair of an optional field: none when it is absent.
pub open spec fn opt_kv(key: Seq<char>, val: Option<Seq<char>>) -> Seq<(Seq<char>, Seq<char>)> {
    match val {
        Some(v) => seq![(key, v)],
        None => Seq::<(Seq<char>, Seq<char>)>::empty(),
    }
}

/// The text of an optional integer.
pub open spec fn opt_int_text(o: Option<i32>) -> Option<Seq<char>> {
    match o {
        Some(i) => Some(int_text(i as int)),
        None => None,
    }
}

/// The text of an optional boolean.
pub open spec fn opt_bool_text(o: Option<bool>) -> Option<Seq<char>> {
    match o {
        Some(b) => Some(bool_text(b)),
        None => None,
    }
}

/// Writes the fields of a DTO one after another in the form: the pair of
/// each present field, in order.
pub struct FormWriter {
    out: String,
    first: bool,
    keys: Ghost<Seq<Seq<char>>>,
    vals: Ghost<Seq<Option<Seq<char>>>>,
}

impl FormWriter {
    /// The text written so far is the form text of the present fields so far.
    pub closed spec fn inv(&self) -> bool {
        &&& self.keys@.len() == self.vals@.len()
        &&& self.out@ == form_text(present_pairs(self.keys@, self.vals@))
        &&& self.first == (present_pairs(self.keys@, self.vals@).len() == 0)
    }

    /// The keys of the fields written so far.
    pub closed spec fn keys(&self) -> Seq<Seq<char>> {
        self.keys@
    }

    /// The values of the fields written so far, absent ones as `None`.
    pub closed spec fn vals(&self) -> Seq<Option<Seq<char>>> {
        self.vals@
    }

    /// A writer with nothing written.
    pub fn new() -> (w: Self)
        ensures
            w.inv(),
            w.keys() == Seq::<Seq<char>>::empty(),
            w.vals() == Seq::<Option<Seq<char>>>::empty(),
    {
        FormWriter { out: String::new(), first: true, keys: Ghost(Seq::empty()), vals: Ghost(Seq::empty()) }
    }

    /// Records one more field, present with the value `val` or absent.
    fn push_field(&mut self, key: &str, val: Option<&str>)
        requires
            old(self).inv(),
        ensures
            final(self).inv(),
            final(self).keys() == old(self).keys().push(key@),
            final(self).vals() == old(self).vals().push(
                match val {
                    Some(v) => Some(v@),
                    None => None,
                },
            ),
    {
        let ghost v = match val {
            Some(t) => Some(t@),
            None => None::<Seq<char>>,
        };
        let ghost before = present_pairs(self.keys@, self.vals@);
        let ghost ks = self.keys@.push(key@);
        let ghost vs = self.vals@.push(v);
        assert(ks.drop_last() =~= self.keys@);
        assert(vs.drop_last() =~= self.vals@);
        assert(present_pairs(ks, vs) == before + opt_kv(key@, v));
        match val {
            Some(t) => {
                let ghost ps = pair_pieces(before);
                let ghost q = before.push((key@, t@));
                assert(before + opt_kv(key@, v) =~= q);
                assert(q.drop_last() =~= before);
                assert(pair_pieces(q) == ps.push(key@).push(t@));
                assert(ps.len() == 0 <==> before.len() == 0) by {
                    lemma_pair_pieces_len(before);
                }
                push_joined(&mut self.out, self.first, Ghost(ps), key);
                push_joined(&mut self.out, false, Ghost(ps.push(key@)), t);
                self.first = false;
            },
            None => {
                assert(before + opt_kv(key@, v) =~= before);
            },
        }
        self.keys = Ghost(ks);
        self.vals = Ghost(vs);
    }

    /// Writes a field that is always present.
    pub fn push_pair(&mut self, key: &str, val: &str)
        requires
            old(self).inv(),
        ensures
            final(self).inv(),
            final(self).keys() == old(self).keys().push(key@),
            final(self).vals() == old(self).vals().push(Some(val@)),
    {
        self.push_field(key, Some(val));
    }

    /// Writes a text field if it is present.
    pub fn push_opt(&mut self, key: &str, val: &Option<String>)
        requires
            old(self).inv(),
        ensures
            final(self).inv(),
            final(self).keys() == old(self).keys().push(key@),
            final(self).vals() == old(self).vals().push(opt_text(*val)),
    {
        match val {
            Some(v) => self.push_field(key, Some(v.as_str())),
            None => self.push_field(key, None),
        }
    }

    /// Writes an integer field if it is present.
    pub fn push_opt_int(&mut self, key: &str, val: Option<i32>)
        requires
            old(self).inv(),
        ensures
            final(self).inv(),
            final(self).keys() == old(self).keys().push(key@),
            final(self).vals() == old(self).vals().push(opt_int_text(val)),
    {
        match val {
            Some(v) => {
                let t = i32_to_text(v);
                self.push_field(key, Some(t.as_str()));
            },
            None => self.push_field(key, None),
        }
    }

    /// Writes a boolean field if it is present.
    pub fn push_opt_bool(&mut self, key: &str, val: Option<bool>)
        requires
            old(self).inv(),
        ensures
            final(self).inv(),
            final(self).keys() == old(self).keys().push(key@),
            final(self).vals() == old(self).vals().push(opt_bool_text(val)),
    {
        match val {
            Some(v) => {
                let t = bool_to_text(v);
                self.push_field(key, Some(t.as_str()));
            },
            None => self.push_field(key, None),
        }
    }

    /// Records a field that this form does not carry.
    pub fn skip(&mut self, key: &str)
        requires
            old(self).inv(),
        ensures
            final(self).inv(),
            final(self).keys() == old(self).keys().push(key@),
            final(self).vals() == old(self).vals().push(None),
    {
        self.push_field(key, None);
    }

    /// The text written.
    pub fn finish(self) -> (s: String)
        requires
            self.inv(),
        ensures
            s@ == form_text(present_pairs(self.keys(), self.vals())),
    {
        self.out
    }
}

proof fn lemma_pair_pieces_len(kvs: Seq<(Seq<char>, Seq<char>)>)
    ensures
        pair_pieces(kvs).len() == 2 * kvs.len(),
    decreases kvs.len(),
{
    if kvs.len() > 0 {
        lemma_pair_pieces_len(kvs.drop_last());
    }
}

/// Joins texts with commas.
pub fn join_texts(v: &Vec<String>) -> (s: String)
    ensures
        s@ == join_commas(texts(v@)),
{
    let mut out = String::new();
    let mut i: usize = 0;
    while i < v.len()
        invariant
            0 <= i <= v.len(),
            out@ == join_commas(texts(v@).take(i as int)),
        decreases v.len() - i,
    {
        let ghost ps = texts(v@).take(i as int);
        push_joined(&mut out, i == 0, Ghost(ps), v[i].as_str());
        assert(texts(v@).take(i + 1) =~= ps.push(v@[i as int]@));
        i = i + 1;
    }
    assert(texts(v@).take(v.len() as int) =~= texts(v@));
    out
}

/// A comma-free text is one piece.
pub proof fn lemma_split_comma_free(s: Seq<char>)
    requires
        comma_free(s),
    ensures
        split_commas(s) == seq![s],
    decreases s.len(),
{
    if s.len() > 0 {
        assert(!s.drop_last().contains(',')) by {
            if s.drop_last().contains(',') {
                let i = choose|i: int| 0 <= i < s.drop_last().len() && s.drop_last()[i] == ',';
                assert(s[i] == ',');
            }
        }
        lemma_split_comma_free(s.drop_last());
        assert(s.last() != ',') by {
            assert(s[s.len() - 1] == s.last());
        }
        assert(s.drop_last().push(s.last()) =~= s);
        assert(split_commas(s) =~= seq![s]);
    } else {
        assert(s =~= Seq::<char>::empty());
    }
}

/// Cutting at a comma splits the pieces of the two sides.
pub proof fn lemma_split_at_comma(a: Seq<char>, b: Seq<char>)
    ensures
        split_commas(a + seq![','] + b) == split_commas(a) + split_commas(b),
    decreases b.len(),
{
    let x = a + seq![','] + b;
    if b.len() == 0 {
        assert(x.drop_last() =~= a);
        assert(split_commas(x) =~= split_commas(a) + split_commas(b));
    } else {
        assert(x.drop_last() =~= a + seq![','] + b.drop_last());
        lemma_split_at_comma(a, b.drop_last());
        lemma_split_len(b.drop_last());
        lemma_split_len(a);
        assert(x.last() == b.last());
        assert(split_commas(x) =~= split_commas(a) + split_commas(b));
    }
}

/// Joining comma-free pieces and cutting the text again gives the pieces back.
pub proof fn lemma_split_join(ps: Seq<Seq<char>>)
    requires
        ps.len() >= 1,
        forall|i: int| 0 <= i < ps.len() ==> comma_free(#[trigger] ps[i]),
    ensures
        split_commas(join_commas(ps)) == ps,
    decreases ps.len(),
{
    if ps.len() == 1 {
        lemma_split_comma_free(ps[0]);
        assert(split_commas(join_commas(ps)) =~= ps);
    } else {
        let init = ps.drop_last();
        assert forall|i: int| 0 <= i < init.len() implies comma_free(#[trigger] init[i]) by {
            assert(init[i] == ps[i]);
        }
        lemma_split_join(init);
        lemma_split_at_comma(join_commas(init), ps.last());
        assert(comma_free(ps[ps.len() - 1]));
        lemma_split_comma_free(ps.last());
        assert(split_commas(join_commas(ps)) =~= ps);
    }
}

/// The form text of an even number of comma-free pieces reads as their
/// (key, value) pairs, with no key left over.
pub proof fn lemma_form_of_pieces(ps: Seq<Seq<char>>)
    requires
        ps.len() >= 2,
        ps.len() % 2 == 0,
        forall|i: int| 0 <= i < ps.len() ==> comma_free(#[trigger] ps[i]),
    ensures
        form_pairs(join_commas(ps)) == Seq::new(ps.len() / 2, |j: int| (ps[2 * j], ps[2 * j + 1])),
        !form_dangling(join_commas(ps)),
{
    lemma_split_join(ps);
    assert(form_pairs(join_commas(ps)) =~= Seq::new(ps.len() / 2, |j: int| (ps[2 * j], ps[2 * j + 1])));
}


/// Every pair from index `j` on is fine, so the scan finds nothing.
proof fn lemma_scan_clean(
    pairs: Seq<(Seq<char>, Seq<char>)>,
    j: int,
    table: Seq<(Seq<char>, FieldKind)>,
    nested_ok: spec_fn(Seq<char>) -> bool,
)
    requires
        0 <= j <= pairs.len(),
        forall|i: int| j <= i < pairs.len() ==> pair_error(table, nested_ok, pairs[i].0, pairs[i].1) is None,
    ensures
        scan_error(pairs, j, table, nested_ok) is None,
    decreases pairs.len() - j,
{
    if j < pairs.len() {
        lemma_scan_clean(pairs, j + 1, table, nested_ok);
    }
}

/// The pieces of pairs are the pairs' keys and values at even and odd places.
proof fn lemma_pair_pieces_index(kvs: Seq<(Seq<char>, Seq<char>)>)
    ensures
        pair_pieces(kvs).len() == 2 * kvs.len(),
        forall|j: int| 0 <= j < kvs.len() ==> pair_pieces(kvs)[2 * j] == (#[trigger] kvs[j]).0
            && pair_pieces(kvs)[2 * j + 1] == kvs[j].1,
    decreases kvs.len(),
{
    lemma_pair_pieces_len(kvs);
    if kvs.len() > 0 {
        lemma_pair_pieces_index(kvs.drop_last());
        assert forall|j: int| 0 <= j < kvs.len() implies pair_pieces(kvs)[2 * j] == (#[trigger] kvs[j]).0
            && pair_pieces(kvs)[2 * j + 1] == kvs[j].1 by {
            if j < kvs.len() - 1 {
                assert(kvs.drop_last()[j] == kvs[j]);
            }
        }
    }
}

/// Reading back the form text of comma-free pairs, each fine for the table:
/// nothing goes wrong, and each key's first value is its first value in the pairs.
pub proof fn lemma_read_form_text(
    kvs: Seq<(Seq<char>, Seq<char>)>,
    table: Seq<(Seq<char>, FieldKind)>,
    nested_ok: spec_fn(Seq<char>) -> bool,
)
    requires
        kvs.len() >= 1,
        forall|i: int| 0 <= i < kvs.len() ==> comma_free((#[trigger] kvs[i]).0) && comma_free(kvs[i].1)
            && pair_error(table, nested_ok, kvs[i].0, kvs[i].1) is None,
    ensures
        form_pairs(form_text(kvs)) == kvs,
        form_error(form_text(kvs), table, nested_ok) is None,
        forall|key: Seq<char>| #[trigger] first_value(form_text(kvs), key) == first_value_from(kvs, key, 0),
{
    let ps = pair_pieces(kvs);
    lemma_pair_pieces_index(kvs);
    assert forall|i: int| 0 <= i < ps.len() implies comma_free(#[trigger] ps[i]) by {
        let j = i / 2;
        assert(kvs[j].0 == ps[2 * j]);
        if i % 2 == 0 {
            assert(i == 2 * j);
        } else {
            assert(i == 2 * j + 1);
        }
    }
    lemma_form_of_pieces(ps);
    assert(form_pairs(form_text(kvs)) =~= kvs);
    lemma_scan_clean(kvs, 0, table, nested_ok);
}


/// The `i32` given first for this key among the pairs.
pub fn find_int(fp: &FormPairs, key: &str) -> (r: Option<i32>)
    ensures
        r == (match first_value_from(pairs_view(fp.pairs@), key@, 0) {
            Some(v) => i32_of_text(v),
            None => None,
        }),
{
    match find_value(fp, key) {
        Some(v) => i32_from_text(v.as_str()),
        None => None,
    }
}

/// The `bool` given first for this key among the pairs.
pub fn find_bool(fp: &FormPairs, key: &str) -> (r: Option<bool>)
    ensures
        r == (match first_value_from(pairs_view(fp.pairs@), key@, 0) {
            Some(v) => bool_of_text(v),
            None => None,
        }),
{
    match find_value(fp, key) {
        Some(v) => bool_from_text(v.as_str()),
        None => None,
    }
}

/// Every pair is comma-free and fine for the table.
pub open spec fn pairs_ok(
    kvs: Seq<(Seq<char>, Seq<char>)>,
    table: Seq<(Seq<char>, FieldKind)>,
    nested_ok: spec_fn(Seq<char>) -> bool,
) -> bool {
    forall|i: int| 0 <= i < kvs.len() ==> comma_free((#[trigger] kvs[i]).0) && comma_free(kvs[i].1)
        && pair_error(table, nested_ok, kvs[i].0, kvs[i].1) is None
}

pub proof fn lemma_pairs_ok_concat(
    a: Seq<(Seq<char>, Seq<char>)>,
    b: Seq<(Seq<char>, Seq<char>)>,
    table: Seq<(Seq<char>, FieldKind)>,
    nested_ok: spec_fn(Seq<char>) -> bool,
)
    requires
        pairs_ok(a, table, nested_ok),
        pairs_ok(b, table, nested_ok),
    ensures
        pairs_ok(a + b, table, nested_ok),
{
    assert forall|i: int| 0 <= i < (a + b).len() implies comma_free((#[trigger] (a + b)[i]).0)
        && comma_free((a + b)[i].1) && pair_error(table, nested_ok, (a + b)[i].0, (a + b)[i].1) is None by {
        if i < a.len() {
            assert((a + b)[i] == a[i]);
        } else {
            assert((a + b)[i] == b[i - a.len()]);
        }
    }
}

pub proof fn lemma_pairs_ok_opt(
    key: Seq<char>,
    val: Option<Seq<char>>,
    table: Seq<(Seq<char>, FieldKind)>,
    nested_ok: spec_fn(Seq<char>) -> bool,
)
    requires
        val matches Some(v) ==> comma_free(key) && comma_free(v) && pair_error(table, nested_ok, key, v) is None,
    ensures
        pairs_ok(opt_kv(key, val), table, nested_ok),
{
}

proof fn lemma_first_value_shift(
    a: Seq<(Seq<char>, Seq<char>)>,
    b: Seq<(Seq<char>, Seq<char>)>,
    key: Seq<char>,
    j: int,
)
    requires
        0 <= j <= b.len(),
    ensures
        first_value_from(a + b, key, a.len() + j) == first_value_from(b, key, j),
    decreases b.len() - j,
{
    if j < b.len() {
        assert((a + b)[a.len() + j] == b[j]);
        lemma_first_value_shift(a, b, key, j + 1);
    }
}

proof fn lemma_first_value_concat_from(
    a: Seq<(Seq<char>, Seq<char>)>,
    b: Seq<(Seq<char>, Seq<char>)>,
    key: Seq<char>,
    j: int,
)
    requires
        0 <= j <= a.len(),
    ensures
        first_value_from(a + b, key, j) == (match first_value_from(a, key, j) {
            Some(v) => Some(v),
            None => first_value_from(b, key, 0),
        }),
    decreases a.len() - j,
{
    if j < a.len() {
        assert((a + b)[j] == a[j]);
        lemma_first_value_concat_from(a, b, key, j + 1);
    } else {
        lemma_first_value_shift(a, b, key, 0);
    }
}

/// The first value of a key in two lists of pairs one after the other.
pub proof fn lemma_first_value_concat(
    a: Seq<(Seq<char>, Seq<char>)>,
    b: Seq<(Seq<char>, Seq<char>)>,
    key: Seq<char>,
)
    ensures
        first_value_from(a + b, key, 0) == (match first_value_from(a, key, 0) {
            Some(v) => Some(v),
            None => first_value_from(b, key, 0),
        }),
{
    lemma_first_value_concat_from(a, b, key, 0);
}

/// The first value of a key in the pair of an optional field.
pub proof fn lemma_first_value_opt(k: Seq<char>, v: Option<Seq<char>>, key: Seq<char>)
    ensures
        first_value_from(opt_kv(k, v), key, 0) == (if k == key {
            v
        } else {
            None
        }),
{
    if v is Some {
        assert(first_value_from(opt_kv(k, v), key, 1) is None);
    }
}

/// Two texts differ at some place.
pub proof fn lemma_texts_differ(a: Seq<char>, b: Seq<char>, i: int)
    requires
        0 <= i < a.len(),
        0 <= i < b.len(),
        a[i] != b[i],
    ensures
        a != b,
{
}


/// The pairs of the present fields, in order: `keys[i]` with `vals[i]` where
/// that value is present.
pub open spec fn present_pairs(keys: Seq<Seq<char>>, vals: Seq<Option<Seq<char>>>) -> Seq<(Seq<char>, Seq<char>)>
    decreases keys.len(),
{
    if keys.len() == 0 || vals.len() == 0 {
        Seq::<(Seq<char>, Seq<char>)>::empty()
    } else {
        present_pairs(keys.drop_last(), vals.drop_last()) + opt_kv(keys.last(), vals.last())
    }
}

/// No key occurs twice.
pub open spec fn keys_distinct(keys: Seq<Seq<char>>) -> bool {
    forall|i: int, j: int| 0 <= i < j < keys.len() ==> keys[i] != keys[j]
}

proof fn lemma_present_pairs_facts(
    keys: Seq<Seq<char>>,
    vals: Seq<Option<Seq<char>>>,
    table: Seq<(Seq<char>, FieldKind)>,
    nested_ok: spec_fn(Seq<char>) -> bool,
)
    requires
        keys.len() == vals.len(),
        keys_distinct(keys),
        forall|i: int| 0 <= i < vals.len() ==> (#[trigger] vals[i] matches Some(v) ==> comma_free(keys[i]) && comma_free(v)
            && pair_error(table, nested_ok, keys[i], v) is None),
    ensures
        pairs_ok(present_pairs(keys, vals), table, nested_ok),
        (exists|i: int| 0 <= i < vals.len() && vals[i] is Some) ==> present_pairs(keys, vals).len() >= 1,
        forall|i: int| 0 <= i < keys.len() ==> first_value_from(present_pairs(keys, vals), #[trigger] keys[i], 0) == vals[i],
    decreases keys.len(),
{
    if keys.len() > 0 {
        let ik = keys.drop_last();
        let iv = vals.drop_last();
        assert forall|i: int| 0 <= i < iv.len() implies (#[trigger] iv[i] matches Some(v) ==> comma_free(ik[i]) && comma_free(v)
            && pair_error(table, nested_ok, ik[i], v) is None) by {
            assert(iv[i] == vals[i] && ik[i] == keys[i]);
        }
        lemma_present_pairs_facts(ik, iv, table, nested_ok);
        let last = keys.len() - 1;
        assert(vals[last] == vals.last());
        lemma_pairs_ok_opt(keys.last(), vals.last(), table, nested_ok);
        lemma_pairs_ok_concat(present_pairs(ik, iv), opt_kv(keys.last(), vals.last()), table, nested_ok);
        if exists|i: int| 0 <= i < vals.len() && vals[i] is Some {
            let i = choose|i: int| 0 <= i < vals.len() && vals[i] is Some;
            if i < last {
                assert(iv[i] == vals[i]);
            }
        }
        assert forall|i: int| 0 <= i < keys.len() implies first_value_from(present_pairs(keys, vals), #[trigger] keys[i], 0) == vals[i] by {
            lemma_first_value_concat(present_pairs(ik, iv), opt_kv(keys.last(), vals.last()), keys[i]);
            lemma_first_value_opt(keys.last(), vals.last(), keys[i]);
            if i < last {
                assert(ik[i] == keys[i]);
                assert(keys[i] != keys[last]);
            } else {
                lemma_present_pairs_absent(ik, iv, keys[i]);
            }
        }
    }
}

proof fn lemma_present_pairs_absent(keys: Seq<Seq<char>>, vals: Seq<Option<Seq<char>>>, key: Seq<char>)
    requires
        forall|i: int| 0 <= i < keys.len() ==> keys[i] != key,
    ensures
        first_value_from(present_pairs(keys, vals), key, 0) is None,
    decreases keys.len(),
{
    if keys.len() > 0 && vals.len() > 0 {
        let ik = keys.drop_last();
        assert forall|i: int| 0 <= i < ik.len() implies ik[i] != key by {
            assert(ik[i] == keys[i]);
        }
        lemma_present_pairs_absent(ik, vals.drop_last(), key);
        lemma_first_value_concat(present_pairs(ik, vals.drop_last()), opt_kv(keys.last(), vals.last()), key);
        lemma_first_value_opt(keys.last(), vals.last(), key);
        assert(keys[keys.len() - 1] == keys.last());
    }
}

/// Reading back the form text of the present fields, with distinct keys,
/// comma-free texts and values that read as their kind: nothing goes wrong,
/// and every key reads as its value, or as absent where it was absent.
pub proof fn lemma_present_round_trip(
    keys: Seq<Seq<char>>,
    vals: Seq<Option<Seq<char>>>,
    table: Seq<(Seq<char>, FieldKind)>,
    nested_ok: spec_fn(Seq<char>) -> bool,
)
    requires
        keys.len() == vals.len(),
        keys_distinct(keys),
        exists|i: int| 0 <= i < vals.len() && vals[i] is Some,
        forall|i: int| 0 <= i < vals.len() ==> (#[trigger] vals[i] matches Some(v) ==> comma_free(keys[i]) && comma_free(v)
            && pair_error(table, nested_ok, keys[i], v) is None),
    ensures
        form_error(form_text(present_pairs(keys, vals)), table, nested_ok) is None,
        forall|i: int| 0 <= i < keys.len() ==> first_value(form_text(present_pairs(keys, vals)), #[trigger] keys[i]) == vals[i],
{
    lemma_present_pairs_facts(keys, vals, table, nested_ok);
    lemma_read_form_text(present_pairs(keys, vals), table, nested_ok);
}

/// The kinds of a table's keys, where no key occurs twice.
pub proof fn lemma_table_kinds(table: Seq<(Seq<char>, FieldKind)>)
    requires
        forall|i: int, j: int| 0 <= i < j < table.len() ==> table[i].0 != table[j].0,
    ensures
        forall|i: int| 0 <= i < table.len() ==> kind_of(table, #[trigger] table[i].0) == Some(table[i].1),
{
    assert forall|i: int| 0 <= i < table.len() implies kind_of(table, #[trigger] table[i].0) == Some(table[i].1) by {
        lemma_kind_of_found(table, table[i].0, i);
    }
}

/// A key that no entry of the table has is not read.
pub proof fn lemma_table_absent(table: Seq<(Seq<char>, FieldKind)>, key: Seq<char>)
    requires
        forall|i: int| 0 <= i < table.len() ==> table[i].0 != key,
    ensures
        kind_of(table, key) is None,
{
    lemma_kind_of_absent(table, key);
}

/// Whether a present value reads as the kind of its field.
pub open spec fn kind_accepts(kind: FieldKind, v: Seq<char>, nested_ok: spec_fn(Seq<char>) -> bool) -> bool {
    match kind {
        FieldKind::Text => true,
        FieldKind::Int => i32_of_text(v) is Some,
        FieldKind::Bool => bool_of_text(v) is Some,
        FieldKind::Nested => nested_ok(v),
        FieldKind::Container => false,
    }
}

/// The keys of a table, in order.
pub open spec fn table_keys(table: Seq<(Seq<char>, FieldKind)>) -> Seq<Seq<char>> {
    table.map_values(|p: (Seq<char>, FieldKind)| p.0)
}

/// No two keys of the table begin with the same character.
pub open spec fn heads_distinct(table: Seq<(Seq<char>, FieldKind)>) -> bool {
    forall|i: int, j: int|
        0 <= i < j < table.len() ==> (#[trigger] table[i]).0.len() > 0 && (#[trigger] table[j]).0.len() > 0
            && table[i].0[0] != table[j].0[0]
}

/// Reading back the form text of a DTO, written field by field in the
/// order of its table: where some field is present, every text is
/// comma-free and every value reads as its kind, nothing goes wrong and
/// every key reads as its field, or as absent where the field was absent.
pub proof fn lemma_table_round_trip(
    table: Seq<(Seq<char>, FieldKind)>,
    vals: Seq<Option<Seq<char>>>,
    nested_ok: spec_fn(Seq<char>) -> bool,
)
    requires
        table.len() == vals.len(),
        heads_distinct(table),
        exists|i: int| 0 <= i < vals.len() && vals[i] is Some,
        forall|i: int| 0 <= i < vals.len() ==> (#[trigger] vals[i] matches Some(v) ==> comma_free(table[i].0)
            && comma_free(v) && kind_accepts(table[i].1, v, nested_ok)),
    ensures
        form_error(form_text(present_pairs(table_keys(table), vals)), table, nested_ok) is None,
        forall|i: int| 0 <= i < table.len() ==> first_value(form_text(present_pairs(table_keys(table), vals)), (#[trigger] table[i]).0)
            == vals[i],
{
    let keys = table_keys(table);
    assert forall|i: int, j: int| 0 <= i < j < table.len() implies table[i].0 != table[j].0 by {
        assert(table[i].0[0] != table[j].0[0]);
    }
    lemma_table_kinds(table);
    assert forall|i: int, j: int| 0 <= i < j < keys.len() implies keys[i] != keys[j] by {
        assert(keys[i] == table[i].0 && keys[j] == table[j].0);
    }
    assert forall|i: int| 0 <= i < vals.len() implies (#[trigger] vals[i] matches Some(v) ==> comma_free(keys[i])
        && comma_free(v) && pair_error(table, nested_ok, keys[i], v) is None) by {
        assert(keys[i] == table[i].0);
        assert(kind_of(table, table[i].0) == Some(table[i].1));
    }
    lemma_present_round_trip(keys, vals, table, nested_ok);
    assert forall|i: int| 0 <= i < table.len() implies first_value(form_text(present_pairs(keys, vals)), (#[trigger] table[i]).0)
        == vals[i] by {
        assert(keys[i] == table[i].0);
    }
}

/// The text of an integer holds no comma, and reads back as an integer.
pub proof fn lemma_int_field(v: i32, nested_ok: spec_fn(Seq<char>) -> bool)
    ensures
        comma_free(int_text(v as int)),
        kind_accepts(FieldKind::Int, int_text(v as int), nested_ok),
        i32_of_text(int_text(v as int)) == Some(v),
{
    crate::decimal::lemma_i32_text_round_trip(v);
    let t = int_text(v as int);
    let n = if v < 0 { (-(v as int)) as nat } else { v as nat };
    crate::decimal::lemma_nat_text(n);
    assert(!t.contains(',')) by {
        if t.contains(',') {
            let k = choose|k: int| 0 <= k < t.len() && t[k] == ',';
            if v < 0 {
                assert(t[k] == nat_text(n)[k - 1]);
                assert(crate::decimal::is_digit(nat_text(n)[k - 1]));
            } else {
                assert(crate::decimal::is_digit(nat_text(n)[k]));
            }
        }
    }
}

/// The text of a boolean holds no comma, and reads back as a boolean.
pub proof fn lemma_bool_field(b: bool, nested_ok: spec_fn(Seq<char>) -> bool)
    ensures
        comma_free(bool_text(b)),
        kind_accepts(FieldKind::Bool, bool_text(b), nested_ok),
        bool_of_text(bool_text(b)) == Some(b),
{
    crate::decimal::lemma_bool_text_round_trip(b);
    assert(!bool_text(b).contains(','));
}

/// In pairs whose scan found nothing wrong, the value given first for a key
/// passed the check of its pair.
pub proof fn lemma_first_value_checked(
    pairs: Seq<(Seq<char>, Seq<char>)>,
    key: Seq<char>,
    table: Seq<(Seq<char>, FieldKind)>,
    nested_ok: spec_fn(Seq<char>) -> bool,
)
    requires
        scan_error(pairs, 0, table, nested_ok) is None,
    ensures
        first_value_from(pairs, key, 0) matches Some(v) ==> pair_error(table, nested_ok, key, v) is None,
{
    lemma_first_value_checked_from(pairs, key, table, nested_ok, 0);
}

proof fn lemma_first_value_checked_from(
    pairs: Seq<(Seq<char>, Seq<char>)>,
    key: Seq<char>,
    table: Seq<(Seq<char>, FieldKind)>,
    nested_ok: spec_fn(Seq<char>) -> bool,
    j: int,
)
    requires
        0 <= j,
        scan_error(pairs, j, table, nested_ok) is None,
    ensures
        first_value_from(pairs, key, j) matches Some(v) ==> pair_error(table, nested_ok, key, v) is None,
    decreases pairs.len() - j,
{
    if j < pairs.len() && pairs[j].0 != key {
        lemma_first_value_checked_from(pairs, key, table, nested_ok, j + 1);
    }
}

} // verus!
