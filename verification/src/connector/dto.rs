//! The data that BOB's REST API exchanges, and its query-parameter form
//! (style=form, explode=false): `key,value,key,value,...`. Writing skips
//! the list-valued fields; reading refuses them, and takes the first value
//! given for a key.

use vstd::prelude::*;
use crate::form::{
    FormError, FieldKind, FormWriter, form_text, form_error, no_nested, first_value, first_bool,
    first_int, opt_text, opt_int_text, opt_bool_text, table_view, table_keys, present_pairs,
    parse, check_pairs, find_value, find_int, find_bool, comma_free, heads_distinct,
    kind_accepts, lemma_table_round_trip, lemma_int_field, lemma_bool_field, join_commas, texts,
    join_texts, FormPairs, scan_error, pairs_view, field_kind, pair_error, kind_of, first_value_from,
    lemma_kind_of_found, lemma_table_absent, lemma_texts_differ, lemma_first_value_checked,
};
use crate::decimal::{int_text, bool_text};

verus! {

/// A directory on a node.
#[derive(Default, Debug, PartialEq, Eq)]
pub struct Dir {
    pub name: Option<String>,
    pub path: Option<String>,
    pub children: Option<Vec<Dir>>,
}

/// The fields of [`Dir`] in the form, in order, with how each is read.
pub open spec fn dir_table() -> Seq<(Seq<char>, FieldKind)> {
    seq![("name"@, FieldKind::Text), ("path"@, FieldKind::Text), ("children"@, FieldKind::Container)]
}

/// What a [`Dir`] writes for each field; the children are not written.
pub open spec fn dir_vals(d: Dir) -> Seq<Option<Seq<char>>> {
    seq![opt_text(d.name), opt_text(d.path), None]
}

/// The form text of a [`Dir`].
pub open spec fn dir_text(d: Dir) -> Seq<char> {
    form_text(present_pairs(table_keys(dir_table()), dir_vals(d)))
}

/// Why a form text is not a [`Dir`], if it is not.
pub open spec fn dir_error(s: Seq<char>) -> Option<FormError> {
    form_error(s, dir_table(), no_nested())
}

impl Dir {
    /// A directory with no field set.
    pub fn new() -> (r: Self)
        ensures
            r.name is None,
            r.path is None,
            r.children is None,
    {
        Self { name: None, path: None, children: None }
    }

    /// The query-parameter form; the children are skipped.
    pub fn to_string(&self) -> (s: String)
        ensures
            s@ == dir_text(*self),
    {
        let mut w = FormWriter::new();
        w.push_opt("name", &self.name);
        w.push_opt("path", &self.path);
        w.skip("children");
        assert(w.keys() =~= table_keys(dir_table()));
        assert(w.vals() =~= dir_vals(*self));
        w.finish()
    }

    /// Reads the query-parameter form; children cannot be given.
    pub fn from_str(s: &str) -> (r: Result<Self, FormError>)
        ensures
            match r {
                Ok(d) => {
                    &&& dir_error(s@) is None
                    &&& opt_text(d.name) == first_value(s@, "name"@)
                    &&& opt_text(d.path) == first_value(s@, "path"@)
                    &&& d.children is None
                },
                Err(e) => dir_error(s@) == Some(e),
            },
    {
        let fp = parse(s);
        let keys = vec![("name", FieldKind::Text), ("path", FieldKind::Text), ("children", FieldKind::Container)];
        assert(table_view(keys@) =~= dir_table());
        if let Some(e) = check_pairs(&fp, &keys) {
            return Err(e);
        }
        Ok(Self { name: find_value(&fp, "name"), path: find_value(&fp, "path"), children: None })
    }
}

/// Reading back the form text of a [`Dir`] with a name or a path, none of
/// them holding a comma, gives its name and path.
pub proof fn lemma_dir_round_trip(d: Dir)
    requires
        d.name is Some || d.path is Some,
        d.name matches Some(n) ==> comma_free(n@),
        d.path matches Some(p) ==> comma_free(p@),
    ensures
        dir_error(dir_text(d)) is None,
        first_value(dir_text(d), "name"@) == opt_text(d.name),
        first_value(dir_text(d), "path"@) == opt_text(d.path),
{
    reveal_strlit("name");
    reveal_strlit("path");
    reveal_strlit("children");
    let t = dir_table();
    let v = dir_vals(d);
    assert(heads_distinct(t)) by {
        assert forall|i: int, j: int| 0 <= i < j < t.len() implies (#[trigger] t[i]).0.len() > 0
            && (#[trigger] t[j]).0.len() > 0 && t[i].0[0] != t[j].0[0] by {
            if i == 0 {
                if j == 1 {} else {}
            }
        }
    }
    assert(v[0] is Some || v[1] is Some);
    assert forall|i: int| 0 <= i < v.len() implies (#[trigger] v[i] matches Some(x) ==> comma_free(t[i].0)
        && comma_free(x) && kind_accepts(t[i].1, x, no_nested())) by {
        if i == 0 {} else if i == 1 {} else {}
    }
    lemma_table_round_trip(t, v, no_nested());
    assert(t[0].0 == "name"@ && t[1].0 == "path"@);
}

/// State of one disk of a node.
#[derive(Debug, Clone, PartialEq, Eq)]
pub struct DiskState {
    pub name: String,
    pub path: String,
    pub is_active: bool,
}

/// The fields of [`DiskState`] in the form, in order, with how each is read.
pub open spec fn disk_state_table() -> Seq<(Seq<char>, FieldKind)> {
    seq![("name"@, FieldKind::Text), ("path"@, FieldKind::Text), ("is_active"@, FieldKind::Bool)]
}

/// What a [`DiskState`] writes for each field, `None` where it writes nothing.
pub open spec fn disk_state_vals(x: DiskState) -> Seq<Option<Seq<char>>> {
    seq![Some(x.name@), Some(x.path@), Some(bool_text(x.is_active))]
}

/// The form text of a [`DiskState`].
pub open spec fn disk_state_text(x: DiskState) -> Seq<char> {
    form_text(present_pairs(table_keys(disk_state_table()), disk_state_vals(x)))
}

/// Why a form text is not a [`DiskState`], if it is not: a bad pair, a key
/// left without a value, or a required field not given.
pub open spec fn disk_state_error(s: Seq<char>) -> Option<FormError> {
    match form_error(s, disk_state_table(), no_nested()) {
        Some(e) => Some(e),
        None => if first_value(s, "name"@) is None || first_value(s, "path"@) is None || first_bool(s, "is_active"@) is None {
            Some(FormError::MissingField)
        } else {
            None
        },
    }
}

impl DiskState {
    /// Creates a new [`DiskState`].
    pub fn new(name: String, path: String, is_active: bool) -> (r: Self)
        ensures
            r.name == name,
            r.path == path,
            r.is_active == is_active,
    {
        Self { name, path, is_active }
    }

    /// The query-parameter form: `name,<name>,path,<path>,is_active,<bool>`.
    pub fn to_string(&self) -> (s: String)
        ensures
            s@ == disk_state_text(*self),
    {
        let mut w = FormWriter::new();
        w.push_pair("name", self.name.as_str());
        w.push_pair("path", self.path.as_str());
        w.push_opt_bool("is_active", Some(self.is_active));
        assert(w.keys() =~= table_keys(disk_state_table()));
        assert(w.vals() =~= disk_state_vals(*self));
        w.finish()
    }

    /// Reads the query-parameter form; all three fields are required.
    pub fn from_str(s: &str) -> (r: Result<Self, FormError>)
        ensures
            match r {
                Ok(d) => {
                    &&& disk_state_error(s@) is None
                    &&& first_value(s@, "name"@) == Some(d.name@)
                    &&& first_value(s@, "path"@) == Some(d.path@)
                    &&& first_bool(s@, "is_active"@) == Some(d.is_active)
                },
                Err(e) => disk_state_error(s@) == Some(e),
            },
    {
        let fp = parse(s);
        let keys = vec![("name", FieldKind::Text), ("path", FieldKind::Text), ("is_active", FieldKind::Bool)];
        assert(table_view(keys@) =~= disk_state_table());
        if let Some(e) = check_pairs(&fp, &keys) {
            return Err(e);
        }
        match (find_value(&fp, "name"), find_value(&fp, "path"), find_bool(&fp, "is_active")) {
            (Some(name), Some(path), Some(is_active)) => Ok(Self { name, path, is_active }),
            _ => Err(FormError::MissingField),
        }
    }
}

/// Reading back the form text of a [`DiskState`] whose name and path hold
/// no comma gives the same name, path and activity.
pub proof fn lemma_disk_state_round_trip(x: DiskState)
    requires
        comma_free(x.name@),
        comma_free(x.path@),
    ensures
        disk_state_error(disk_state_text(x)) is None,
        first_value(disk_state_text(x), "name"@) == Some(x.name@),
        first_value(disk_state_text(x), "path"@) == Some(x.path@),
        first_bool(disk_state_text(x), "is_active"@) == Some(x.is_active),
{
    reveal_strlit("name");
    reveal_strlit("path");
    reveal_strlit("is_active");
    let t = disk_state_table();
    let v = disk_state_vals(x);
    assert(heads_distinct(t)) by {
        assert forall|i: int, j: int| 0 <= i < j < t.len() implies (#[trigger] t[i]).0.len() > 0
            && (#[trigger] t[j]).0.len() > 0 && t[i].0[0] != t[j].0[0] by {
            if i == 0 { if j == 1 {} else {} } else { {} }
        }
    }
    lemma_bool_field(x.is_active, no_nested());
    assert(v[0] is Some || v[1] is Some || v[2] is Some);
    assert forall|i: int| 0 <= i < v.len() implies (#[trigger] v[i] matches Some(y) ==> comma_free(t[i].0)
        && comma_free(y) && kind_accepts(t[i].1, y, no_nested())) by {
        if i == 0 {} else if i == 1 {} else {}
    }
    lemma_table_round_trip(t, v, no_nested());
    assert(t[0].0 == "name"@ && t[1].0 == "path"@ && t[2].0 == "is_active"@);
}

/// The distribution function of the cluster.
#[derive(Debug, Clone, PartialEq, Eq)]
pub struct DistrFunc {
    pub func: Option<String>,
}

/// The fields of [`DistrFunc`] in the form, in order, with how each is read.
pub open spec fn distr_func_table() -> Seq<(Seq<char>, FieldKind)> {
    seq![("func"@, FieldKind::Text)]
}

/// What a [`DistrFunc`] writes for each field, `None` where it writes nothing.
pub open spec fn distr_func_vals(x: DistrFunc) -> Seq<Option<Seq<char>>> {
    seq![opt_text(x.func)]
}

/// The form text of a [`DistrFunc`].
pub open spec fn distr_func_text(x: DistrFunc) -> Seq<char> {
    form_text(present_pairs(table_keys(distr_func_table()), distr_func_vals(x)))
}

/// Why a form text is not a [`DistrFunc`], if it is not.
pub open spec fn distr_func_error(s: Seq<char>) -> Option<FormError> {
    form_error(s, distr_func_table(), no_nested())
}

impl DistrFunc {
    /// A distribution function with no name set.
    pub fn new() -> (r: Self)
        ensures
            r.func is None,
    {
        Self { func: None }
    }

    /// The query-parameter form: `func,<func>`, or nothing.
    pub fn to_string(&self) -> (s: String)
        ensures
            s@ == distr_func_text(*self),
    {
        let mut w = FormWriter::new();
        w.push_opt("func", &self.func);
        assert(w.keys() =~= table_keys(distr_func_table()));
        assert(w.vals() =~= distr_func_vals(*self));
        w.finish()
    }

    /// Reads the query-parameter form.
    pub fn from_str(s: &str) -> (r: Result<Self, FormError>)
        ensures
            match r {
                Ok(d) => {
                    &&& distr_func_error(s@) is None
                    &&& opt_text(d.func) == first_value(s@, "func"@)
                },
                Err(e) => distr_func_error(s@) == Some(e),
            },
    {
        let fp = parse(s);
        let keys = vec![("func", FieldKind::Text)];
        assert(table_view(keys@) =~= distr_func_table());
        if let Some(e) = check_pairs(&fp, &keys) {
            return Err(e);
        }
        Ok(Self { func: find_value(&fp, "func") })
    }
}

/// Reading back the form text of a [`DistrFunc`] with a comma-free name gives
/// the name.
pub proof fn lemma_distr_func_round_trip(x: DistrFunc)
    requires
        x.func matches Some(f) && comma_free(f@),
    ensures
        distr_func_error(distr_func_text(x)) is None,
        first_value(distr_func_text(x), "func"@) == opt_text(x.func),
{
    reveal_strlit("func");
    let t = distr_func_table();
    let v = distr_func_vals(x);
    assert(heads_distinct(t)) by {
        assert forall|i: int, j: int| 0 <= i < j < t.len() implies (#[trigger] t[i]).0.len() > 0
            && (#[trigger] t[j]).0.len() > 0 && t[i].0[0] != t[j].0[0] by {
            
        }
    }
    assert(v[0] is Some);
    assert forall|i: int| 0 <= i < v.len() implies (#[trigger] v[i] matches Some(y) ==> comma_free(t[i].0)
        && comma_free(y) && kind_accepts(t[i].1, y, no_nested())) by {
        {}
    }
    lemma_table_round_trip(t, v, no_nested());
    assert(t[0].0 == "func"@);
}

/// An error that a node reports.
#[derive(Debug, Clone, PartialEq, Eq)]
pub struct Error {
    pub code: String,
    pub message: String,
}

/// The fields of [`Error`] in the form, in order, with how each is read.
pub open spec fn error_table() -> Seq<(Seq<char>, FieldKind)> {
    seq![("code"@, FieldKind::Text), ("message"@, FieldKind::Text)]
}

/// What a [`Error`] writes for each field, `None` where it writes nothing.
pub open spec fn error_vals(x: Error) -> Seq<Option<Seq<char>>> {
    seq![Some(x.code@), Some(x.message@)]
}

/// The form text of a [`Error`].
pub open spec fn error_text(x: Error) -> Seq<char> {
    form_text(present_pairs(table_keys(error_table()), error_vals(x)))
}

/// Why a form text is not a [`Error`], if it is not: a bad pair, a key
/// left without a value, or a required field not given.
pub open spec fn error_error(s: Seq<char>) -> Option<FormError> {
    match form_error(s, error_table(), no_nested()) {
        Some(e) => Some(e),
        None => if first_value(s, "code"@) is None || first_value(s, "message"@) is None {
            Some(FormError::MissingField)
        } else {
            None
        },
    }
}

impl Error {
    /// Creates a new [`Error`].
    pub fn new(code: String, message: String) -> (r: Self)
        ensures
            r.code == code,
            r.message == message,
    {
        Self { code, message }
    }

    /// The query-parameter form: `code,<code>,message,<message>`.
    pub fn to_string(&self) -> (s: String)
        ensures
            s@ == error_text(*self),
    {
        let mut w = FormWriter::new();
        w.push_pair("code", self.code.as_str());
        w.push_pair("message", self.message.as_str());
        assert(w.keys() =~= table_keys(error_table()));
        assert(w.vals() =~= error_vals(*self));
        w.finish()
    }

    /// Reads the query-parameter form; both fields are required.
    pub fn from_str(s: &str) -> (r: Result<Self, FormError>)
        ensures
            match r {
                Ok(d) => {
                    &&& error_error(s@) is None
                    &&& first_value(s@, "code"@) == Some(d.code@)
                    &&& first_value(s@, "message"@) == Some(d.message@)
                },
                Err(e) => error_error(s@) == Some(e),
            },
    {
        let fp = parse(s);
        let keys = vec![("code", FieldKind::Text), ("message", FieldKind::Text)];
        assert(table_view(keys@) =~= error_table());
        if let Some(e) = check_pairs(&fp, &keys) {
            return Err(e);
        }
        match (find_value(&fp, "code"), find_value(&fp, "message")) {
            (Some(code), Some(message)) => Ok(Self { code, message }),
            _ => Err(FormError::MissingField),
        }
    }
}

/// Reading back the form text of an [`Error`] whose code and message hold no
/// comma gives the same code and message.
pub proof fn lemma_error_round_trip(x: Error)
    requires
        comma_free(x.code@),
        comma_free(x.message@),
    ensures
        error_error(error_text(x)) is None,
        first_value(error_text(x), "code"@) == Some(x.code@),
        first_value(error_text(x), "message"@) == Some(x.message@),
{
    reveal_strlit("code");
    reveal_strlit("message");
    let t = error_table();
    let v = error_vals(x);
    assert(heads_distinct(t)) by {
        assert forall|i: int, j: int| 0 <= i < j < t.len() implies (#[trigger] t[i]).0.len() > 0
            && (#[trigger] t[j]).0.len() > 0 && t[i].0[0] != t[j].0[0] by {
            { {} }
        }
    }
    assert(v[0] is Some || v[1] is Some);
    assert forall|i: int| 0 <= i < v.len() implies (#[trigger] v[i] matches Some(y) ==> comma_free(t[i].0)
        && comma_free(y) && kind_accepts(t[i].1, y, no_nested())) by {
        if i == 0 {} else {}
    }
    lemma_table_round_trip(t, v, no_nested());
    assert(t[0].0 == "code"@ && t[1].0 == "message"@);
}

/// A node of the cluster.
#[derive(Debug, Clone, PartialEq, Eq)]
pub struct Node {
    pub name: String,
    pub address: String,
    pub vdisks: Option<Vec<VDisk>>,
}

/// The fields of [`Node`] in the form, in order, with how each is read.
pub open spec fn node_table() -> Seq<(Seq<char>, FieldKind)> {
    seq![("name"@, FieldKind::Text), ("address"@, FieldKind::Text), ("vdisks"@, FieldKind::Container)]
}

/// What a [`Node`] writes for each field, `None` where it writes nothing.
pub open spec fn node_vals(x: Node) -> Seq<Option<Seq<char>>> {
    seq![Some(x.name@), Some(x.address@), None]
}

/// The form text of a [`Node`].
pub open spec fn node_text(x: Node) -> Seq<char> {
    form_text(present_pairs(table_keys(node_table()), node_vals(x)))
}

/// Why a form text is not a [`Node`], if it is not: a bad pair, a key
/// left without a value, or a required field not given.
pub open spec fn node_error(s: Seq<char>) -> Option<FormError> {
    match form_error(s, node_table(), no_nested()) {
        Some(e) => Some(e),
        None => if first_value(s, "name"@) is None || first_value(s, "address"@) is None {
            Some(FormError::MissingField)
        } else {
            None
        },
    }
}

impl Node {
    /// Creates a new [`Node`] with no virtual disks listed.
    pub fn new(name: String, address: String) -> (r: Self)
        ensures
            r.name == name,
            r.address == address,
            r.vdisks is None,
    {
        Self { name, address, vdisks: None }
    }

    /// The query-parameter form: `name,<name>,address,<address>`; the virtual
    /// disks are skipped.
    pub fn to_string(&self) -> (s: String)
        ensures
            s@ == node_text(*self),
    {
        let mut w = FormWriter::new();
        w.push_pair("name", self.name.as_str());
        w.push_pair("address", self.address.as_str());
        w.skip("vdisks");
        assert(w.keys() =~= table_keys(node_table()));
        assert(w.vals() =~= node_vals(*self));
        w.finish()
    }

    /// Reads the query-parameter form; name and address are required and the
    /// virtual disks cannot be given.
    pub fn from_str(s: &str) -> (r: Result<Self, FormError>)
        ensures
            match r {
                Ok(d) => {
                    &&& node_error(s@) is None
                    &&& first_value(s@, "name"@) == Some(d.name@)
                    &&& first_value(s@, "address"@) == Some(d.address@)
                    &&& d.vdisks is None
                },
                Err(e) => node_error(s@) == Some(e),
            },
    {
        let fp = parse(s);
        let keys = vec![("name", FieldKind::Text), ("address", FieldKind::Text), ("vdisks", FieldKind::Container)];
        assert(table_view(keys@) =~= node_table());
        if let Some(e) = check_pairs(&fp, &keys) {
            return Err(e);
        }
        match (find_value(&fp, "name"), find_value(&fp, "address")) {
            (Some(name), Some(address)) => Ok(Self { name, address, vdisks: None }),
            _ => Err(FormError::MissingField),
        }
    }
}

/// Reading back the form text of a [`Node`] whose name and address hold no
/// comma gives the same name and address.
pub proof fn lemma_node_round_trip(x: Node)
    requires
        comma_free(x.name@),
        comma_free(x.address@),
    ensures
        node_error(node_text(x)) is None,
        first_value(node_text(x), "name"@) == Some(x.name@),
        first_value(node_text(x), "address"@) == Some(x.address@),
{
    reveal_strlit("name");
    reveal_strlit("address");
    reveal_strlit("vdisks");
    let t = node_table();
    let v = node_vals(x);
    assert(heads_distinct(t)) by {
        assert forall|i: int, j: int| 0 <= i < j < t.len() implies (#[trigger] t[i]).0.len() > 0
            && (#[trigger] t[j]).0.len() > 0 && t[i].0[0] != t[j].0[0] by {
            if i == 0 { if j == 1 {} else {} } else { {} }
        }
    }
    assert(v[0] is Some || v[1] is Some);
    assert forall|i: int| 0 <= i < v.len() implies (#[trigger] v[i] matches Some(y) ==> comma_free(t[i].0)
        && comma_free(y) && kind_accepts(t[i].1, y, no_nested())) by {
        if i == 0 {} else if i == 1 {} else {}
    }
    lemma_table_round_trip(t, v, no_nested());
    assert(t[0].0 == "name"@ && t[1].0 == "address"@ && t[2].0 == "vdisks"@);
}

/// Settings of a node.
#[derive(Debug, Clone, PartialEq, Eq)]
pub struct NodeConfiguration {
    pub blob_file_name_prefix: Option<String>,
    pub root_dir_name: Option<String>,
}

/// The fields of [`NodeConfiguration`] in the form, in order, with how each is read.
pub open spec fn node_configuration_table() -> Seq<(Seq<char>, FieldKind)> {
    seq![("blob_file_name_prefix"@, FieldKind::Text), ("root_dir_name"@, FieldKind::Text)]
}

/// What a [`NodeConfiguration`] writes for each field, `None` where it writes nothing.
pub open spec fn node_configuration_vals(x: NodeConfiguration) -> Seq<Option<Seq<char>>> {
    seq![opt_text(x.blob_file_name_prefix), opt_text(x.root_dir_name)]
}

/// The form text of a [`NodeConfiguration`].
pub open spec fn node_configuration_text(x: NodeConfiguration) -> Seq<char> {
    form_text(present_pairs(table_keys(node_configuration_table()), node_configuration_vals(x)))
}

/// Why a form text is not a [`NodeConfiguration`], if it is not.
pub open spec fn node_configuration_error(s: Seq<char>) -> Option<FormError> {
    form_error(s, node_configuration_table(), no_nested())
}

impl NodeConfiguration {
    /// A configuration with no field set.
    pub fn new() -> (r: Self)
        ensures
            r.blob_file_name_prefix is None,
            r.root_dir_name is None,
    {
        Self { blob_file_name_prefix: None, root_dir_name: None }
    }

    /// The query-parameter form of the fields that are set.
    pub fn to_string(&self) -> (s: String)
        ensures
            s@ == node_configuration_text(*self),
    {
        let mut w = FormWriter::new();
        w.push_opt("blob_file_name_prefix", &self.blob_file_name_prefix);
        w.push_opt("root_dir_name", &self.root_dir_name);
        assert(w.keys() =~= table_keys(node_configuration_table()));
        assert(w.vals() =~= node_configuration_vals(*self));
        w.finish()
    }

    /// Reads the query-parameter form.
    pub fn from_str(s: &str) -> (r: Result<Self, FormError>)
        ensures
            match r {
                Ok(d) => {
                    &&& node_configuration_error(s@) is None
                    &&& opt_text(d.blob_file_name_prefix) == first_value(s@, "blob_file_name_prefix"@)
                    &&& opt_text(d.root_dir_name) == first_value(s@, "root_dir_name"@)
                },
                Err(e) => node_configuration_error(s@) == Some(e),
            },
    {
        let fp = parse(s);
        let keys = vec![("blob_file_name_prefix", FieldKind::Text), ("root_dir_name", FieldKind::Text)];
        assert(table_view(keys@) =~= node_configuration_table());
        if let Some(e) = check_pairs(&fp, &keys) {
            return Err(e);
        }
        Ok(Self { blob_file_name_prefix: find_value(&fp, "blob_file_name_prefix"), root_dir_name: find_value(&fp, "root_dir_name") })
    }
}

/// Reading back the form text of a [`NodeConfiguration`] with a field set,
/// none holding a comma, gives the same fields.
pub proof fn lemma_node_configuration_round_trip(x: NodeConfiguration)
    requires
        x.blob_file_name_prefix is Some || x.root_dir_name is Some,
        x.blob_file_name_prefix matches Some(p) ==> comma_free(p@),
        x.root_dir_name matches Some(p) ==> comma_free(p@),
    ensures
        node_configuration_error(node_configuration_text(x)) is None,
        first_value(node_configuration_text(x), "blob_file_name_prefix"@) == opt_text(x.blob_file_name_prefix),
        first_value(node_configuration_text(x), "root_dir_name"@) == opt_text(x.root_dir_name),
{
    reveal_strlit("blob_file_name_prefix");
    reveal_strlit("root_dir_name");
    let t = node_configuration_table();
    let v = node_configuration_vals(x);
    assert(heads_distinct(t)) by {
        assert forall|i: int, j: int| 0 <= i < j < t.len() implies (#[trigger] t[i]).0.len() > 0
            && (#[trigger] t[j]).0.len() > 0 && t[i].0[0] != t[j].0[0] by {
            { {} }
        }
    }
    assert(v[0] is Some || v[1] is Some);
    assert forall|i: int| 0 <= i < v.len() implies (#[trigger] v[i] matches Some(y) ==> comma_free(t[i].0)
        && comma_free(y) && kind_accepts(t[i].1, y, no_nested())) by {
        if i == 0 {} else {}
    }
    lemma_table_round_trip(t, v, no_nested());
    assert(t[0].0 == "blob_file_name_prefix"@ && t[1].0 == "root_dir_name"@);
}

/// A partition of a virtual disk.
#[derive(Debug, Clone, PartialEq, Eq)]
pub struct Partition {
    pub vdisk_id: Option<i32>,
    pub node_name: Option<String>,
    pub disk_name: Option<String>,
    pub timestamp: Option<i32>,
    pub records_count: Option<i32>,
}

/// The fields of [`Partition`] in the form, in order, with how each is read.
pub open spec fn partition_table() -> Seq<(Seq<char>, FieldKind)> {
    seq![("vdisk_id"@, FieldKind::Int), ("node_name"@, FieldKind::Text), ("disk_name"@, FieldKind::Text), ("timestamp"@, FieldKind::Int), ("records_count"@, FieldKind::Int)]
}

/// What a [`Partition`] writes for each field, `None` where it writes nothing.
pub open spec fn partition_vals(x: Partition) -> Seq<Option<Seq<char>>> {
    seq![opt_int_text(x.vdisk_id), opt_text(x.node_name), opt_text(x.disk_name), opt_int_text(x.timestamp), opt_int_text(x.records_count)]
}

/// The form text of a [`Partition`].
pub open spec fn partition_text(x: Partition) -> Seq<char> {
    form_text(present_pairs(table_keys(partition_table()), partition_vals(x)))
}

/// Why a form text is not a [`Partition`], if it is not.
pub open spec fn partition_error(s: Seq<char>) -> Option<FormError> {
    form_error(s, partition_table(), no_nested())
}

impl Partition {
    /// A partition with no field set.
    pub fn new() -> (r: Self)
        ensures
            r.vdisk_id is None,
            r.node_name is None,
            r.disk_name is None,
            r.timestamp is None,
            r.records_count is None,
    {
        Self { vdisk_id: None, node_name: None, disk_name: None, timestamp: None, records_count: None }
    }

    /// The query-parameter form of the fields that are set.
    pub fn to_string(&self) -> (s: String)
        ensures
            s@ == partition_text(*self),
    {
        let mut w = FormWriter::new();
        w.push_opt_int("vdisk_id", self.vdisk_id);
        w.push_opt("node_name", &self.node_name);
        w.push_opt("disk_name", &self.disk_name);
        w.push_opt_int("timestamp", self.timestamp);
        w.push_opt_int("records_count", self.records_count);
        assert(w.keys() =~= table_keys(partition_table()));
        assert(w.vals() =~= partition_vals(*self));
        w.finish()
    }

    /// Reads the query-parameter form; numbers are read as `i32`.
    pub fn from_str(s: &str) -> (r: Result<Self, FormError>)
        ensures
            match r {
                Ok(d) => {
                    &&& partition_error(s@) is None
                    &&& d.vdisk_id == first_int(s@, "vdisk_id"@)
                    &&& opt_text(d.node_name) == first_value(s@, "node_name"@)
                    &&& opt_text(d.disk_name) == first_value(s@, "disk_name"@)
                    &&& d.timestamp == first_int(s@, "timestamp"@)
                    &&& d.records_count == first_int(s@, "records_count"@)
                },
                Err(e) => partition_error(s@) == Some(e),
            },
    {
        let fp = parse(s);
        let keys = vec![("vdisk_id", FieldKind::Int), ("node_name", FieldKind::Text), ("disk_name", FieldKind::Text), ("timestamp", FieldKind::Int), ("records_count", FieldKind::Int)];
        assert(table_view(keys@) =~= partition_table());
        if let Some(e) = check_pairs(&fp, &keys) {
            return Err(e);
        }
        Ok(Self { vdisk_id: find_int(&fp, "vdisk_id"), node_name: find_value(&fp, "node_name"), disk_name: find_value(&fp, "disk_name"), timestamp: find_int(&fp, "timestamp"), records_count: find_int(&fp, "records_count") })
    }
}

/// Reading back the form text of a [`Partition`] with a field set, no name
/// holding a comma, gives the same fields.
pub proof fn lemma_partition_round_trip(x: Partition)
    requires
        x.vdisk_id is Some || x.node_name is Some || x.disk_name is Some || x.timestamp is Some || x.records_count is Some,
        x.node_name matches Some(p) ==> comma_free(p@),
        x.disk_name matches Some(p) ==> comma_free(p@),
    ensures
        partition_error(partition_text(x)) is None,
        first_int(partition_text(x), "vdisk_id"@) == x.vdisk_id,
        first_value(partition_text(x), "node_name"@) == opt_text(x.node_name),
        first_value(partition_text(x), "disk_name"@) == opt_text(x.disk_name),
        first_int(partition_text(x), "timestamp"@) == x.timestamp,
        first_int(partition_text(x), "records_count"@) == x.records_count,
{
    reveal_strlit("vdisk_id");
    reveal_strlit("node_name");
    reveal_strlit("disk_name");
    reveal_strlit("timestamp");
    reveal_strlit("records_count");
    let t = partition_table();
    let v = partition_vals(x);
    assert(heads_distinct(t)) by {
        assert forall|i: int, j: int| 0 <= i < j < t.len() implies (#[trigger] t[i]).0.len() > 0
            && (#[trigger] t[j]).0.len() > 0 && t[i].0[0] != t[j].0[0] by {
            if i == 0 { if j == 1 {} else if j == 2 {} else if j == 3 {} else {} } else if i == 1 { if j == 2 {} else if j == 3 {} else {} } else if i == 2 { if j == 3 {} else {} } else { {} }
        }
    }
    if let Some(n) = x.vdisk_id { lemma_int_field(n, no_nested()); }
    if let Some(n) = x.timestamp { lemma_int_field(n, no_nested()); }
    if let Some(n) = x.records_count { lemma_int_field(n, no_nested()); }
    assert(v[0] is Some || v[1] is Some || v[2] is Some || v[3] is Some || v[4] is Some);
    assert forall|i: int| 0 <= i < v.len() implies (#[trigger] v[i] matches Some(y) ==> comma_free(t[i].0)
        && comma_free(y) && kind_accepts(t[i].1, y, no_nested())) by {
        if i == 0 {} else if i == 1 {} else if i == 2 {} else if i == 3 {} else {}
    }
    lemma_table_round_trip(t, v, no_nested());
    assert(t[0].0 == "vdisk_id"@ && t[1].0 == "node_name"@ && t[2].0 == "disk_name"@ && t[3].0 == "timestamp"@ && t[4].0 == "records_count"@);
}

/// A replica of a virtual disk: where it lies.
#[derive(Debug, Clone, PartialEq, Eq)]
pub struct Replica {
    pub node: String,
    pub disk: String,
    pub path: String,
}

/// The fields of [`Replica`] in the form, in order, with how each is read.
pub open spec fn replica_table() -> Seq<(Seq<char>, FieldKind)> {
    seq![("node"@, FieldKind::Text), ("disk"@, FieldKind::Text), ("path"@, FieldKind::Text)]
}

/// What a [`Replica`] writes for each field, `None` where it writes nothing.
pub open spec fn replica_vals(x: Replica) -> Seq<Option<Seq<char>>> {
    seq![Some(x.node@), Some(x.disk@), Some(x.path@)]
}

/// The form text of a [`Replica`].
pub open spec fn replica_text(x: Replica) -> Seq<char> {
    form_text(present_pairs(table_keys(replica_table()), replica_vals(x)))
}

/// Why a form text is not a [`Replica`], if it is not: a bad pair, a key
/// left without a value, or a required field not given.
pub open spec fn replica_error(s: Seq<char>) -> Option<FormError> {
    match form_error(s, replica_table(), no_nested()) {
        Some(e) => Some(e),
        None => if first_value(s, "node"@) is None || first_value(s, "disk"@) is None || first_value(s, "path"@) is None {
            Some(FormError::MissingField)
        } else {
            None
        },
    }
}

impl Replica {
    /// Creates a new [`Replica`].
    pub fn new(node: String, disk: String, path: String) -> (r: Self)
        ensures
            r.node == node,
            r.disk == disk,
            r.path == path,
    {
        Self { node, disk, path }
    }

    /// The query-parameter form: `node,<node>,disk,<disk>,path,<path>`.
    pub fn to_string(&self) -> (s: String)
        ensures
            s@ == replica_text(*self),
    {
        let mut w = FormWriter::new();
        w.push_pair("node", self.node.as_str());
        w.push_pair("disk", self.disk.as_str());
        w.push_pair("path", self.path.as_str());
        assert(w.keys() =~= table_keys(replica_table()));
        assert(w.vals() =~= replica_vals(*self));
        w.finish()
    }

    /// Reads the query-parameter form; all three fields are required.
    pub fn from_str(s: &str) -> (r: Result<Self, FormError>)
        ensures
            match r {
                Ok(d) => {
                    &&& replica_error(s@) is None
                    &&& first_value(s@, "node"@) == Some(d.node@)
                    &&& first_value(s@, "disk"@) == Some(d.disk@)
                    &&& first_value(s@, "path"@) == Some(d.path@)
                },
                Err(e) => replica_error(s@) == Some(e),
            },
    {
        let fp = parse(s);
        let keys = vec![("node", FieldKind::Text), ("disk", FieldKind::Text), ("path", FieldKind::Text)];
        assert(table_view(keys@) =~= replica_table());
        if let Some(e) = check_pairs(&fp, &keys) {
            return Err(e);
        }
        match (find_value(&fp, "node"), find_value(&fp, "disk"), find_value(&fp, "path")) {
            (Some(node), Some(disk), Some(path)) => Ok(Self { node, disk, path }),
            _ => Err(FormError::MissingField),
        }
    }
}

/// Reading back the form text of a [`Replica`] whose texts hold no comma
/// gives the same node, disk and path.
pub proof fn lemma_replica_round_trip(x: Replica)
    requires
        comma_free(x.node@),
        comma_free(x.disk@),
        comma_free(x.path@),
    ensures
        replica_error(replica_text(x)) is None,
        first_value(replica_text(x), "node"@) == Some(x.node@),
        first_value(replica_text(x), "disk"@) == Some(x.disk@),
        first_value(replica_text(x), "path"@) == Some(x.path@),
{
    reveal_strlit("node");
    reveal_strlit("disk");
    reveal_strlit("path");
    let t = replica_table();
    let v = replica_vals(x);
    assert(heads_distinct(t)) by {
        assert forall|i: int, j: int| 0 <= i < j < t.len() implies (#[trigger] t[i]).0.len() > 0
            && (#[trigger] t[j]).0.len() > 0 && t[i].0[0] != t[j].0[0] by {
            if i == 0 { if j == 1 {} else {} } else { {} }
        }
    }
    assert(v[0] is Some || v[1] is Some || v[2] is Some);
    assert forall|i: int| 0 <= i < v.len() implies (#[trigger] v[i] matches Some(y) ==> comma_free(t[i].0)
        && comma_free(y) && kind_accepts(t[i].1, y, no_nested())) by {
        if i == 0 {} else if i == 1 {} else {}
    }
    lemma_table_round_trip(t, v, no_nested());
    assert(t[0].0 == "node"@ && t[1].0 == "disk"@ && t[2].0 == "path"@);
}

/// The extended status of an operation.
#[derive(Debug, Clone, PartialEq, Eq)]
pub struct StatusExt {
    pub status: Option<i32>,
    pub ok: Option<bool>,
    pub msg: Option<String>,
}

/// The fields of [`StatusExt`] in the form, in order, with how each is read.
pub open spec fn status_ext_table() -> Seq<(Seq<char>, FieldKind)> {
    seq![("status"@, FieldKind::Int), ("ok"@, FieldKind::Bool), ("msg"@, FieldKind::Text)]
}

/// What a [`StatusExt`] writes for each field, `None` where it writes nothing.
pub open spec fn status_ext_vals(x: StatusExt) -> Seq<Option<Seq<char>>> {
    seq![opt_int_text(x.status), opt_bool_text(x.ok), opt_text(x.msg)]
}

/// The form text of a [`StatusExt`].
pub open spec fn status_ext_text(x: StatusExt) -> Seq<char> {
    form_text(present_pairs(table_keys(status_ext_table()), status_ext_vals(x)))
}

/// Why a form text is not a [`StatusExt`], if it is not.
pub open spec fn status_ext_error(s: Seq<char>) -> Option<FormError> {
    form_error(s, status_ext_table(), no_nested())
}

impl StatusExt {
    /// A status with no field set.
    pub fn new() -> (r: Self)
        ensures
            r.status is None,
            r.ok is None,
            r.msg is None,
    {
        Self { status: None, ok: None, msg: None }
    }

    /// The query-parameter form of the fields that are set.
    pub fn to_string(&self) -> (s: String)
        ensures
            s@ == status_ext_text(*self),
    {
        let mut w = FormWriter::new();
        w.push_opt_int("status", self.status);
        w.push_opt_bool("ok", self.ok);
        w.push_opt("msg", &self.msg);
        assert(w.keys() =~= table_keys(status_ext_table()));
        assert(w.vals() =~= status_ext_vals(*self));
        w.finish()
    }

    /// Reads the query-parameter form.
    pub fn from_str(s: &str) -> (r: Result<Self, FormError>)
        ensures
            match r {
                Ok(d) => {
                    &&& status_ext_error(s@) is None
                    &&& d.status == first_int(s@, "status"@)
                    &&& d.ok == first_bool(s@, "ok"@)
                    &&& opt_text(d.msg) == first_value(s@, "msg"@)
                },
                Err(e) => status_ext_error(s@) == Some(e),
            },
    {
        let fp = parse(s);
        let keys = vec![("status", FieldKind::Int), ("ok", FieldKind::Bool), ("msg", FieldKind::Text)];
        assert(table_view(keys@) =~= status_ext_table());
        if let Some(e) = check_pairs(&fp, &keys) {
            return Err(e);
        }
        Ok(Self { status: find_int(&fp, "status"), ok: find_bool(&fp, "ok"), msg: find_value(&fp, "msg") })
    }
}

/// Reading back the form text of a [`StatusExt`] with a field set and a
/// comma-free message gives the same fields.
pub proof fn lemma_status_ext_round_trip(x: StatusExt)
    requires
        x.status is Some || x.ok is Some || x.msg is Some,
        x.msg matches Some(p) ==> comma_free(p@),
    ensures
        status_ext_error(status_ext_text(x)) is None,
        first_int(status_ext_text(x), "status"@) == x.status,
        first_bool(status_ext_text(x), "ok"@) == x.ok,
        first_value(status_ext_text(x), "msg"@) == opt_text(x.msg),
{
    reveal_strlit("status");
    reveal_strlit("ok");
    reveal_strlit("msg");
    let t = status_ext_table();
    let v = status_ext_vals(x);
    assert(heads_distinct(t)) by {
        assert forall|i: int, j: int| 0 <= i < j < t.len() implies (#[trigger] t[i]).0.len() > 0
            && (#[trigger] t[j]).0.len() > 0 && t[i].0[0] != t[j].0[0] by {
            if i == 0 { if j == 1 {} else {} } else { {} }
        }
    }
    if let Some(n) = x.status { lemma_int_field(n, no_nested()); }
    if let Some(b) = x.ok { lemma_bool_field(b, no_nested()); }
    assert(v[0] is Some || v[1] is Some || v[2] is Some);
    assert forall|i: int| 0 <= i < v.len() implies (#[trigger] v[i] matches Some(y) ==> comma_free(t[i].0)
        && comma_free(y) && kind_accepts(t[i].1, y, no_nested())) by {
        if i == 0 {} else if i == 1 {} else {}
    }
    lemma_table_round_trip(t, v, no_nested());
    assert(t[0].0 == "status"@ && t[1].0 == "ok"@ && t[2].0 == "msg"@);
}

/// A virtual disk of the cluster.
#[derive(Debug, Clone, PartialEq, Eq)]
pub struct VDisk {
    pub id: i32,
    pub replicas: Option<Vec<Replica>>,
}

/// The fields of [`VDisk`] in the form, in order, with how each is read.
pub open spec fn vdisk_table() -> Seq<(Seq<char>, FieldKind)> {
    seq![("id"@, FieldKind::Int), ("replicas"@, FieldKind::Container)]
}

/// What a [`VDisk`] writes for each field, `None` where it writes nothing.
pub open spec fn vdisk_vals(x: VDisk) -> Seq<Option<Seq<char>>> {
    seq![Some(int_text(x.id as int)), None]
}

/// The form text of a [`VDisk`].
pub open spec fn vdisk_text(x: VDisk) -> Seq<char> {
    form_text(present_pairs(table_keys(vdisk_table()), vdisk_vals(x)))
}

/// Why a form text is not a [`VDisk`], if it is not: a bad pair, a key
/// left without a value, or a required field not given.
pub open spec fn vdisk_error(s: Seq<char>) -> Option<FormError> {
    match form_error(s, vdisk_table(), no_nested()) {
        Some(e) => Some(e),
        None => if first_int(s, "id"@) is None {
            Some(FormError::MissingField)
        } else {
            None
        },
    }
}

impl VDisk {
    /// Creates a new [`VDisk`] with no replicas listed.
    pub fn new(id: i32) -> (r: Self)
        ensures
            r.id == id,
            r.replicas is None,
    {
        Self { id, replicas: None }
    }

    /// The query-parameter form: `id,<id>`; the replicas are skipped.
    pub fn to_string(&self) -> (s: String)
        ensures
            s@ == vdisk_text(*self),
    {
        let mut w = FormWriter::new();
        w.push_opt_int("id", Some(self.id));
        w.skip("replicas");
        assert(w.keys() =~= table_keys(vdisk_table()));
        assert(w.vals() =~= vdisk_vals(*self));
        w.finish()
    }

    /// Reads the query-parameter form; the id is required and the replicas
    /// cannot be given.
    pub fn from_str(s: &str) -> (r: Result<Self, FormError>)
        ensures
            match r {
                Ok(d) => {
                    &&& vdisk_error(s@) is None
                    &&& first_int(s@, "id"@) == Some(d.id)
                    &&& d.replicas is None
                },
                Err(e) => vdisk_error(s@) == Some(e),
            },
    {
        let fp = parse(s);
        let keys = vec![("id", FieldKind::Int), ("replicas", FieldKind::Container)];
        assert(table_view(keys@) =~= vdisk_table());
        if let Some(e) = check_pairs(&fp, &keys) {
            return Err(e);
        }
        match (find_int(&fp, "id"),) {
            (Some(id),) => Ok(Self { id, replicas: None }),
            _ => Err(FormError::MissingField),
        }
    }
}

/// Reading back the form text of a [`VDisk`] gives the same id.
pub proof fn lemma_vdisk_round_trip(x: VDisk)
    ensures
        vdisk_error(vdisk_text(x)) is None,
        first_int(vdisk_text(x), "id"@) == Some(x.id),
{
    reveal_strlit("id");
    reveal_strlit("replicas");
    let t = vdisk_table();
    let v = vdisk_vals(x);
    assert(heads_distinct(t)) by {
        assert forall|i: int, j: int| 0 <= i < j < t.len() implies (#[trigger] t[i]).0.len() > 0
            && (#[trigger] t[j]).0.len() > 0 && t[i].0[0] != t[j].0[0] by {
            { {} }
        }
    }
    lemma_int_field(x.id, no_nested());
    assert(v[0] is Some);
    assert forall|i: int| 0 <= i < v.len() implies (#[trigger] v[i] matches Some(y) ==> comma_free(t[i].0)
        && comma_free(y) && kind_accepts(t[i].1, y, no_nested())) by {
        if i == 0 {} else {}
    }
    lemma_table_round_trip(t, v, no_nested());
    assert(t[0].0 == "id"@ && t[1].0 == "replicas"@);
}

/// The version of a component and when it was built.
#[derive(Debug, Clone, PartialEq, Eq)]
pub struct Version {
    pub version: Option<String>,
    pub build_time: Option<String>,
}

/// The fields of [`Version`] in the form, in order, with how each is read.
pub open spec fn version_table() -> Seq<(Seq<char>, FieldKind)> {
    seq![("version"@, FieldKind::Text), ("build_time"@, FieldKind::Text)]
}

/// What a [`Version`] writes for each field, `None` where it writes nothing.
pub open spec fn version_vals(x: Version) -> Seq<Option<Seq<char>>> {
    seq![opt_text(x.version), opt_text(x.build_time)]
}

/// The form text of a [`Version`].
pub open spec fn version_text(x: Version) -> Seq<char> {
    form_text(present_pairs(table_keys(version_table()), version_vals(x)))
}

/// Why a form text is not a [`Version`], if it is not.
pub open spec fn version_error(s: Seq<char>) -> Option<FormError> {
    form_error(s, version_table(), no_nested())
}

impl Version {
    /// A version with no field set.
    pub fn new() -> (r: Self)
        ensures
            r.version is None,
            r.build_time is None,
    {
        Self { version: None, build_time: None }
    }

    /// The query-parameter form of the fields that are set.
    pub fn to_string(&self) -> (s: String)
        ensures
            s@ == version_text(*self),
    {
        let mut w = FormWriter::new();
        w.push_opt("version", &self.version);
        w.push_opt("build_time", &self.build_time);
        assert(w.keys() =~= table_keys(version_table()));
        assert(w.vals() =~= version_vals(*self));
        w.finish()
    }

    /// Reads the query-parameter form.
    pub fn from_str(s: &str) -> (r: Result<Self, FormError>)
        ensures
            match r {
                Ok(d) => {
                    &&& version_error(s@) is None
                    &&& opt_text(d.version) == first_value(s@, "version"@)
                    &&& opt_text(d.build_time) == first_value(s@, "build_time"@)
                },
                Err(e) => version_error(s@) == Some(e),
            },
    {
        let fp = parse(s);
        let keys = vec![("version", FieldKind::Text), ("build_time", FieldKind::Text)];
        assert(table_view(keys@) =~= version_table());
        if let Some(e) = check_pairs(&fp, &keys) {
            return Err(e);
        }
        Ok(Self { version: find_value(&fp, "version"), build_time: find_value(&fp, "build_time") })
    }
}

/// Reading back the form text of a [`Version`] with a field set, none
/// holding a comma, gives the same fields.
pub proof fn lemma_version_round_trip(x: Version)
    requires
        x.version is Some || x.build_time is Some,
        x.version matches Some(p) ==> comma_free(p@),
        x.build_time matches Some(p) ==> comma_free(p@),
    ensures
        version_error(version_text(x)) is None,
        first_value(version_text(x), "version"@) == opt_text(x.version),
        first_value(version_text(x), "build_time"@) == opt_text(x.build_time),
{
    reveal_strlit("version");
    reveal_strlit("build_time");
    let t = version_table();
    let v = version_vals(x);
    assert(heads_distinct(t)) by {
        assert forall|i: int, j: int| 0 <= i < j < t.len() implies (#[trigger] t[i]).0.len() > 0
            && (#[trigger] t[j]).0.len() > 0 && t[i].0[0] != t[j].0[0] by {
            { {} }
        }
    }
    assert(v[0] is Some || v[1] is Some);
    assert forall|i: int| 0 <= i < v.len() implies (#[trigger] v[i] matches Some(y) ==> comma_free(t[i].0)
        && comma_free(y) && kind_accepts(t[i].1, y, no_nested())) by {
        if i == 0 {} else {}
    }
    lemma_table_round_trip(t, v, no_nested());
    assert(t[0].0 == "version"@ && t[1].0 == "build_time"@);
}

/// The partitions of a virtual disk on one disk of a node.
#[derive(Debug, Clone, PartialEq, Eq)]
pub struct VDiskPartitions {
    pub vdisk: Option<i32>,
    pub node: Option<String>,
    pub disk: Option<String>,
    pub partitions: Option<Vec<String>>,
}

/// The fields of [`VDiskPartitions`] in the form, in order, with how each is read.
pub open spec fn vdisk_partitions_table() -> Seq<(Seq<char>, FieldKind)> {
    seq![("vdisk"@, FieldKind::Int), ("node"@, FieldKind::Text), ("disk"@, FieldKind::Text), ("partitions"@, FieldKind::Container)]
}

/// What [`VDiskPartitions`] writes for each field: the partitions are
/// written as one value, their names joined by commas.
pub open spec fn vdisk_partitions_vals(x: VDiskPartitions) -> Seq<Option<Seq<char>>> {
    seq![
        opt_int_text(x.vdisk),
        opt_text(x.node),
        opt_text(x.disk),
        match x.partitions {
            Some(p) => Some(join_commas(texts(p@))),
            None => None,
        },
    ]
}

/// The form text of [`VDiskPartitions`].
pub open spec fn vdisk_partitions_text(x: VDiskPartitions) -> Seq<char> {
    form_text(present_pairs(table_keys(vdisk_partitions_table()), vdisk_partitions_vals(x)))
}

/// Why a form text is not a [`VDiskPartitions`], if it is not.
pub open spec fn vdisk_partitions_error(s: Seq<char>) -> Option<FormError> {
    form_error(s, vdisk_partitions_table(), no_nested())
}

impl VDiskPartitions {
    /// Partitions with no field set.
    pub fn new() -> (r: Self)
        ensures
            r.vdisk is None,
            r.node is None,
            r.disk is None,
            r.partitions is None,
    {
        Self { vdisk: None, node: None, disk: None, partitions: None }
    }

    /// The query-parameter form of the fields that are set; the partitions
    /// follow their key, joined by commas.
    pub fn to_string(&self) -> (s: String)
        ensures
            s@ == vdisk_partitions_text(*self),
    {
        let mut w = FormWriter::new();
        w.push_opt_int("vdisk", self.vdisk);
        w.push_opt("node", &self.node);
        w.push_opt("disk", &self.disk);
        let joined = match &self.partitions {
            Some(p) => Some(join_texts(p)),
            None => None,
        };
        w.push_opt("partitions", &joined);
        assert(w.keys() =~= table_keys(vdisk_partitions_table()));
        assert(w.vals() =~= vdisk_partitions_vals(*self));
        w.finish()
    }

    /// Reads the query-parameter form; the partitions cannot be given.
    pub fn from_str(s: &str) -> (r: Result<Self, FormError>)
        ensures
            match r {
                Ok(d) => {
                    &&& vdisk_partitions_error(s@) is None
                    &&& d.vdisk == first_int(s@, "vdisk"@)
                    &&& opt_text(d.node) == first_value(s@, "node"@)
                    &&& opt_text(d.disk) == first_value(s@, "disk"@)
                    &&& d.partitions is None
                },
                Err(e) => vdisk_partitions_error(s@) == Some(e),
            },
    {
        let fp = parse(s);
        let keys = vec![("vdisk", FieldKind::Int), ("node", FieldKind::Text), ("disk", FieldKind::Text), ("partitions", FieldKind::Container)];
        assert(table_view(keys@) =~= vdisk_partitions_table());
        if let Some(e) = check_pairs(&fp, &keys) {
            return Err(e);
        }
        Ok(Self { vdisk: find_int(&fp, "vdisk"), node: find_value(&fp, "node"), disk: find_value(&fp, "disk"), partitions: None })
    }
}

/// Reading back the form text of [`VDiskPartitions`] without a list of
/// partitions, with some other field set and comma-free names, gives the
/// same fields.
pub proof fn lemma_vdisk_partitions_round_trip(x: VDiskPartitions)
    requires
        x.partitions is None,
        x.vdisk is Some || x.node is Some || x.disk is Some,
        x.node matches Some(p) ==> comma_free(p@),
        x.disk matches Some(p) ==> comma_free(p@),
    ensures
        vdisk_partitions_error(vdisk_partitions_text(x)) is None,
        first_int(vdisk_partitions_text(x), "vdisk"@) == x.vdisk,
        first_value(vdisk_partitions_text(x), "node"@) == opt_text(x.node),
        first_value(vdisk_partitions_text(x), "disk"@) == opt_text(x.disk),
{
    reveal_strlit("vdisk");
    reveal_strlit("node");
    reveal_strlit("disk");
    reveal_strlit("partitions");
    let t = vdisk_partitions_table();
    let v = vdisk_partitions_vals(x);
    assert(heads_distinct(t)) by {
        assert forall|i: int, j: int| 0 <= i < j < t.len() implies (#[trigger] t[i]).0.len() > 0
            && (#[trigger] t[j]).0.len() > 0 && t[i].0[0] != t[j].0[0] by {
            if i == 0 { if j == 1 {} else if j == 2 {} else {} } else if i == 1 { if j == 2 {} else {} } else {}
        }
    }
    if let Some(n) = x.vdisk { lemma_int_field(n, no_nested()); }
    assert(v[0] is Some || v[1] is Some || v[2] is Some);
    assert forall|i: int| 0 <= i < v.len() implies (#[trigger] v[i] matches Some(y) ==> comma_free(t[i].0)
        && comma_free(y) && kind_accepts(t[i].1, y, no_nested())) by {
        if i == 0 {} else if i == 1 {} else if i == 2 {} else {}
    }
    lemma_table_round_trip(t, v, no_nested());
    assert(t[0].0 == "vdisk"@ && t[1].0 == "node"@ && t[2].0 == "disk"@);
}

/// A nested [`Version`] value is accepted where it reads as a [`Version`].
pub open spec fn version_ok() -> spec_fn(Seq<char>) -> bool {
    |v: Seq<char>| version_error(v) is None
}

/// The versions of BOB and of pearl, its storage engine.
#[derive(Debug, Clone, PartialEq, Eq)]
pub struct VersionInfo {
    pub bobversion: Option<Version>,
    pub pearlversion: Option<Version>,
}

/// The fields of [`VersionInfo`] in the form, with how each is read.
pub open spec fn version_info_table() -> Seq<(Seq<char>, FieldKind)> {
    seq![("bobversion"@, FieldKind::Nested), ("pearlversion"@, FieldKind::Nested)]
}

/// Why a form text is not a [`VersionInfo`], if it is not.
pub open spec fn version_info_error(s: Seq<char>) -> Option<FormError> {
    form_error(s, version_info_table(), version_ok())
}

/// The nested [`Version`] given first for this key reads as `v`.
pub open spec fn nested_version(s: Seq<char>, key: Seq<char>, v: Option<Version>) -> bool {
    match first_value(s, key) {
        Some(t) => v matches Some(x) && opt_text(x.version) == first_value(t, "version"@)
            && opt_text(x.build_time) == first_value(t, "build_time"@),
        None => v is None,
    }
}

/// Reads the pairs of a [`VersionInfo`] in order and reports the first
/// problem: a bad pair, else a key left without a value.
fn check_version_info_pairs(fp: &FormPairs) -> (r: Option<FormError>)
    ensures
        r == (match scan_error(pairs_view(fp.pairs@), 0, version_info_table(), version_ok()) {
            Some(e) => Some(e),
            None => if fp.missing_value {
                Some(FormError::MissingValue)
            } else {
                None
            },
        }),
{
    let table = vec![("bobversion", FieldKind::Nested), ("pearlversion", FieldKind::Nested)];
    assert(table_view(table@) =~= version_info_table());
    let ghost pv = pairs_view(fp.pairs@);
    let ghost t = version_info_table();
    let mut j: usize = 0;
    while j < fp.pairs.len()
        invariant
            pv == pairs_view(fp.pairs@),
            t == table_view(table@),
            t == version_info_table(),
            0 <= j <= fp.pairs.len(),
            scan_error(pv, 0, t, version_ok()) == scan_error(pv, j as int, t, version_ok()),
        decreases fp.pairs.len() - j,
    {
        let key = fp.pairs[j].0.as_str();
        let val = fp.pairs[j].1.as_str();
        assert(pv[j as int] == (key@, val@));
        let err = match field_kind(&table, key) {
            Some(FieldKind::Nested) => if Version::from_str(val).is_ok() {
                None
            } else {
                Some(FormError::InvalidValue)
            },
            _ => Some(FormError::UnexpectedKey),
        };
        assert(err == pair_error(t, version_ok(), key@, val@)) by {
            reveal_strlit("bobversion");
            reveal_strlit("pearlversion");
            assert(kind_of(t, key@) is None || kind_of(t, key@) == Some(FieldKind::Nested)) by {
                if key@ == "bobversion"@ {
                    lemma_kind_of_found(t, key@, 0);
                } else if key@ == "pearlversion"@ {
                    lemma_kind_of_found(t, key@, 1);
                } else {
                    lemma_table_absent(t, key@);
                }
            }
        }
        if err.is_some() {
            return err;
        }
        j = j + 1;
    }
    if fp.missing_value {
        Some(FormError::MissingValue)
    } else {
        None
    }
}

/// The nested [`Version`] given first for this key, in pairs that passed the check.
fn find_version(fp: &FormPairs, key: &str) -> (r: Option<Version>)
    requires
        scan_error(pairs_view(fp.pairs@), 0, version_info_table(), version_ok()) is None,
        kind_of(version_info_table(), key@) == Some(FieldKind::Nested),
    ensures
        match first_value_from(pairs_view(fp.pairs@), key@, 0) {
            Some(t) => r matches Some(x) && opt_text(x.version) == first_value(t, "version"@)
                && opt_text(x.build_time) == first_value(t, "build_time"@),
            None => r is None,
        },
{
    match find_value(fp, key) {
        Some(t) => {
            proof {
                lemma_first_value_checked(pairs_view(fp.pairs@), key@, version_info_table(), version_ok());
            }
            match Version::from_str(t.as_str()) {
                Ok(v) => Some(v),
                Err(_) => None,
            }
        },
        None => None,
    }
}

impl VersionInfo {
    /// Version information with no field set.
    pub fn new() -> (r: Self)
        ensures
            r.bobversion is None,
            r.pearlversion is None,
    {
        Self { bobversion: None, pearlversion: None }
    }

    /// The query-parameter form; both nested versions are skipped, so the
    /// text is empty.
    pub fn to_string(&self) -> (s: String)
        ensures
            s@ == Seq::<char>::empty(),
    {
        String::new()
    }

    /// Reads the query-parameter form; each value is itself read as a
    /// [`Version`].
    pub fn from_str(s: &str) -> (r: Result<Self, FormError>)
        ensures
            match r {
                Ok(d) => {
                    &&& version_info_error(s@) is None
                    &&& nested_version(s@, "bobversion"@, d.bobversion)
                    &&& nested_version(s@, "pearlversion"@, d.pearlversion)
                },
                Err(e) => version_info_error(s@) == Some(e),
            },
    {
        let fp = parse(s);
        if let Some(e) = check_version_info_pairs(&fp) {
            return Err(e);
        }
        proof {
            reveal_strlit("bobversion");
            reveal_strlit("pearlversion");
            lemma_kind_of_found(version_info_table(), "bobversion"@, 0);
            assert("bobversion"@ != "pearlversion"@) by {
                lemma_texts_differ("bobversion"@, "pearlversion"@, 0);
            }
            lemma_kind_of_found(version_info_table(), "pearlversion"@, 1);
        }
        Ok(Self { bobversion: find_version(&fp, "bobversion"), pearlversion: find_version(&fp, "pearlversion") })
    }
}

/// One reading of a metric: its value and when it was taken.
#[derive(Debug, Clone, Copy)]
pub struct MetricsEntryModel {
    pub value: u64,
    pub timestamp: u64,
}

impl Default for MetricsEntryModel {
    /// A reading of zero at time zero.
    fn default() -> (r: Self)
        ensures
            r.value == 0,
            r.timestamp == 0,
    {
        Self { value: 0, timestamp: 0 }
    }
}

impl PartialEq for MetricsEntryModel {
    /// Readings are equal when their values are; the time is not compared.
    fn eq(&self, other: &Self) -> (r: bool) {
        self.value == other.value
    }
}

impl vstd::std_specs::cmp::PartialEqSpecImpl for MetricsEntryModel {
    open spec fn obeys_eq_spec() -> bool {
        true
    }

    open spec fn eq_spec(&self, other: &Self) -> bool {
        self.value == other.value
    }
}

impl Eq for MetricsEntryModel {
}

impl PartialOrd for MetricsEntryModel {
    /// Readings are ordered by their values.
    fn partial_cmp(&self, other: &Self) -> (r: Option<core::cmp::Ordering>) {
        if self.value < other.value {
            Some(core::cmp::Ordering::Less)
        } else if self.value == other.value {
            Some(core::cmp::Ordering::Equal)
        } else {
            Some(core::cmp::Ordering::Greater)
        }
    }
}

impl vstd::std_specs::cmp::PartialOrdSpecImpl for MetricsEntryModel {
    open spec fn obeys_partial_cmp_spec() -> bool {
        true
    }

    open spec fn partial_cmp_spec(&self, other: &Self) -> Option<core::cmp::Ordering> {
        if self.value < other.value {
            Some(core::cmp::Ordering::Less)
        } else if self.value == other.value {
            Some(core::cmp::Ordering::Equal)
        } else {
            Some(core::cmp::Ordering::Greater)
        }
    }
}

/// The metrics of a node, each under its name; no name occurs twice.
#[derive(Debug, Clone, PartialEq, Eq)]
pub struct MetricsSnapshotModel {
    pub metrics: Vec<(String, MetricsEntryModel)>,
}

impl MetricsSnapshotModel {
    /// No name occurs twice.
    pub open spec fn wf(&self) -> bool {
        forall|i: int, j: int| 0 <= i < j < self.metrics@.len() ==> self.metrics@[i].0@ != self.metrics@[j].0@
    }
}

/// Disk space of a node, in bytes, and the space each of its disks takes.
#[derive(Default, Debug, Clone, PartialEq, Eq)]
pub struct SpaceInfo {
    pub total_disk_space_bytes: u64,
    pub free_disk_space_bytes: u64,
    pub used_disk_space_bytes: u64,
    pub occupied_disk_space_bytes: u64,
    pub occupied_disk_space_by_disk: Vec<(String, u64)>,
}

} // verus!
