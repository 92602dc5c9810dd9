//! Reading a manifest from a structured description.
//!
//! A description is a tree of tables, lists and plain values, as a JSON or
//! TOML document gives it. The manifest is a table of known fields. A field
//! that no manifest has is refused, and so is a field that is named twice,
//! be it under two of its names.

use crate::base64::{base64_data, deserialize};
use crate::error::ValidationError;
use crate::manifest::{
    HttpRequest,
    HttpRequestView,
    Manifest,
    ManifestView,
    MemoryOptions,
    Wasm,
    WasmMetadata,
    WasmMetadataView,
    WasmView,
    DEFAULT_TIMEOUT_MS,
};
use crate::path_map::{mounts, PathMap};
use crate::text_map::{written, TextMap};
use vstd::prelude::*;
use vstd::string::StringSliceAdditionalSpecFns;
use vstd::utf8::encode_utf8_decode_utf8;

verus! {

/// A node of a structured description.
#[derive(Debug)]
pub enum Value {
    /// The absent value.
    Null,
    /// A truth value.
    Bool(bool),
    /// A whole number.
    Integer(i128),
    /// A number that is not whole.
    Fraction,
    /// A text.
    Text(String),
    /// A list of values.
    List(Vec<Value>),
    /// A table: keys with their values, in the order of the description.
    Table(Vec<(String, Value)>),
}

/// The kinds of table that a manifest is made of.
#[derive(Clone, Copy, Debug, PartialEq, Eq, Structural)]
pub enum Shape {
    /// The manifest itself.
    Manifest,
    /// The memory settings.
    Memory,
    /// One module source.
    Wasm,
}

/// The number of fields that a table of the shape can have.
pub open spec fn field_count(shape: Shape) -> nat {
    match shape {
        Shape::Manifest => 6,
        Shape::Memory => 1,
        Shape::Wasm => 7,
    }
}

/// The field that `key` names in a table of the shape, or none where the
/// shape has no field of that name. Some fields have two names.
pub open spec fn field_of(shape: Shape, key: Seq<char>) -> Option<nat> {
    match shape {
        Shape::Manifest => if key == "wasm"@ {
            Some(0)
        } else if key == "memory"@ {
            Some(1)
        } else if key == "config"@ {
            Some(2)
        } else if key == "allowed_hosts"@ {
            Some(3)
        } else if key == "allowed_paths"@ {
            Some(4)
        } else if key == "timeout_ms"@ {
            Some(5)
        } else {
            None
        },
        Shape::Memory => if key == "max_pages"@ || key == "max"@ {
            Some(0)
        } else {
            None
        },
        Shape::Wasm => if key == "path"@ {
            Some(0)
        } else if key == "data"@ {
            Some(1)
        } else if key == "url"@ {
            Some(2)
        } else if key == "headers"@ || key == "header"@ {
            Some(3)
        } else if key == "method"@ {
            Some(4)
        } else if key == "name"@ {
            Some(5)
        } else if key == "hash"@ {
            Some(6)
        } else {
            None
        },
    }
}

/// Every key names a field of the shape, and no field is named twice.
pub open spec fn strict(entries: Seq<(String, Value)>, shape: Shape) -> bool {
    &&& forall|i: int| 0 <= i < entries.len() ==> field_of(shape, (#[trigger] entries[i]).0@) is Some
    &&& forall|i: int, j: int|
        0 <= i < j < entries.len() ==> field_of(shape, (#[trigger] entries[i]).0@) != field_of(
            shape,
            (#[trigger] entries[j]).0@,
        )
}

/// Entry `i` gives the field `field` of the shape.
pub open spec fn gives(entries: Seq<(String, Value)>, shape: Shape, field: nat, i: int) -> bool {
    0 <= i < entries.len() && field_of(shape, entries[i].0@) == Some(field)
}

/// The value that the table gives for a field, or none where it names no
/// such field.
pub open spec fn given(entries: Seq<(String, Value)>, shape: Shape, field: nat) -> Option<Value> {
    if exists|i: int| gives(entries, shape, field, i) {
        Some(entries[choose|i: int| gives(entries, shape, field, i)].1)
    } else {
        None
    }
}

/// The text that a value is.
pub open spec fn as_text(v: Value) -> Option<Seq<char>> {
    match v {
        Value::Text(s) => Some(s@),
        _ => None,
    }
}

/// The text that a value is, where the absent value stands for no text.
pub open spec fn as_opt_text(v: Value) -> Option<Option<Seq<char>>> {
    match v {
        Value::Null => Some(None),
        Value::Text(s) => Some(Some(s@)),
        _ => None,
    }
}

/// The number below 2^32 that a value is, where the absent value stands for
/// no number.
pub open spec fn as_opt_u32(v: Value) -> Option<Option<u32>> {
    match v {
        Value::Null => Some(None),
        Value::Integer(n) => if 0 <= n <= u32::MAX {
            Some(Some(n as u32))
        } else {
            None
        },
        _ => None,
    }
}

/// The number below 2^64 that a value is, where the absent value stands for
/// no number.
pub open spec fn as_opt_u64(v: Value) -> Option<Option<u64>> {
    match v {
        Value::Null => Some(None),
        Value::Integer(n) => if 0 <= n <= u64::MAX {
            Some(Some(n as u64))
        } else {
            None
        },
        _ => None,
    }
}

/// Every value of the list is a text.
pub open spec fn all_text(items: Seq<Value>) -> bool {
    forall|i: int| 0 <= i < items.len() ==> as_text(#[trigger] items[i]) is Some
}

/// The texts of a list of texts.
pub open spec fn texts_of(items: Seq<Value>) -> Seq<Seq<char>> {
    Seq::new(items.len(), |i: int| as_text(items[i])->0)
}

/// The list of texts that a value is.
pub open spec fn as_text_list(v: Value) -> Option<Seq<Seq<char>>> {
    match v {
        Value::List(items) => if all_text(items@) {
            Some(texts_of(items@))
        } else {
            None
        },
        _ => None,
    }
}

/// Every value of the table is a text.
pub open spec fn all_text_values(entries: Seq<(String, Value)>) -> bool {
    forall|i: int| 0 <= i < entries.len() ==> as_text((#[trigger] entries[i]).1) is Some
}

/// The keys of a table of texts, each with its text.
pub open spec fn text_pairs(entries: Seq<(String, Value)>) -> Seq<(Seq<char>, Seq<char>)> {
    Seq::new(entries.len(), |i: int| (entries[i].0@, as_text(entries[i].1)->0))
}

/// The map from texts to texts that a value is. Of two entries with one key
/// the later counts.
pub open spec fn as_text_table(v: Value) -> Option<Map<Seq<char>, Seq<char>>> {
    match v {
        Value::Table(entries) => if all_text_values(entries@) {
            Some(written(Map::empty(), text_pairs(entries@)))
        } else {
            None
        },
        _ => None,
    }
}

/// The paths that a value is: a table of texts, of which each entry mounts
/// the host path that is its key under the guest path that is its text, from
/// first to last. Of two entries for one host path, or for one guest path,
/// the later counts.
pub open spec fn as_paths(v: Value) -> Option<Map<Seq<char>, Seq<char>>> {
    match v {
        Value::Table(entries) => if all_text_values(entries@) {
            Some(mounts(Map::empty(), text_pairs(entries@)))
        } else {
            None
        },
        _ => None,
    }
}

/// The paths that a value is, where the absent value stands for no paths.
pub open spec fn as_opt_paths(v: Value) -> Option<Option<Map<Seq<char>, Seq<char>>>> {
    match v {
        Value::Null => Some(None),
        _ => match as_paths(v) {
            Some(m) => Some(Some(m)),
            None => None,
        },
    }
}

/// The list of texts that a value is, where the absent value stands for no
/// list.
pub open spec fn as_opt_text_list(v: Value) -> Option<Option<Seq<Seq<char>>>> {
    match v {
        Value::Null => Some(None),
        _ => match as_text_list(v) {
            Some(l) => Some(Some(l)),
            None => None,
        },
    }
}

/// The memory settings that a value describes: the most pages, if any.
pub open spec fn memory_of(v: Value) -> Option<Option<u32>> {
    match v {
        Value::Table(entries) => if strict(entries@, Shape::Memory) {
            match given(entries@, Shape::Memory, 0) {
                Some(x) => as_opt_u32(x),
                None => Some(None),
            }
        } else {
            None
        },
        _ => None,
    }
}

/// What a strict module table says of the module besides its source.
pub open spec fn meta_of(entries: Seq<(String, Value)>) -> Option<WasmMetadataView> {
    let name = match given(entries, Shape::Wasm, 5) {
        Some(x) => as_opt_text(x),
        None => Some(None),
    };
    let hash = match given(entries, Shape::Wasm, 6) {
        Some(x) => as_opt_text(x),
        None => Some(None),
    };
    if name is Some && hash is Some {
        Some(WasmMetadataView { name: name->0, hash: hash->0 })
    } else {
        None
    }
}

/// The request that a strict module table with an address describes.
pub open spec fn request_of(entries: Seq<(String, Value)>) -> Option<HttpRequestView> {
    let url = match given(entries, Shape::Wasm, 2) {
        Some(x) => as_text(x),
        None => None,
    };
    let headers = match given(entries, Shape::Wasm, 3) {
        Some(x) => as_text_table(x),
        None => Some(Map::empty()),
    };
    let method = match given(entries, Shape::Wasm, 4) {
        Some(x) => as_opt_text(x),
        None => Some(None),
    };
    if url is Some && headers is Some && method is Some {
        Some(HttpRequestView { url: url->0, headers: headers->0, method: method->0 })
    } else {
        None
    }
}

/// The module source that a value describes. A table with a path is a file,
/// one with data is bytes in base64, one with an address is a request; a
/// table with none or more than one of the three describes no source, nor
/// does a file or bytes with headers or a method.
pub open spec fn wasm_of(v: Value) -> Option<WasmView> {
    match v {
        Value::Table(entries) => {
            let e = entries@;
            let path = given(e, Shape::Wasm, 0);
            let data = given(e, Shape::Wasm, 1);
            let url = given(e, Shape::Wasm, 2);
            let plain = given(e, Shape::Wasm, 3) is None && given(e, Shape::Wasm, 4) is None;
            if !strict(e, Shape::Wasm) || meta_of(e) is None {
                None
            } else if path is Some && data is None && url is None && plain {
                match as_text(path->0) {
                    Some(p) => Some(WasmView::File { path: p, meta: meta_of(e)->0 }),
                    None => None,
                }
            } else if path is None && data is Some && url is None && plain {
                match as_text(data->0) {
                    Some(t) => match base64_data(t) {
                        Some(bytes) => Some(WasmView::Data { data: bytes, meta: meta_of(e)->0 }),
                        None => None,
                    },
                    None => None,
                }
            } else if path is None && data is None && url is Some {
                match request_of(e) {
                    Some(req) => Some(WasmView::Url { req, meta: meta_of(e)->0 }),
                    None => None,
                }
            } else {
                None
            }
        },
        _ => None,
    }
}

/// Every value of the list describes a module source.
pub open spec fn all_wasm(items: Seq<Value>) -> bool {
    forall|i: int| 0 <= i < items.len() ==> wasm_of(#[trigger] items[i]) is Some
}

/// The module sources that a value lists.
pub open spec fn as_wasm_list(v: Value) -> Option<Seq<WasmView>> {
    match v {
        Value::List(items) => if all_wasm(items@) {
            Some(Seq::new(items@.len(), |i: int| wasm_of(items@[i])->0))
        } else {
            None
        },
        _ => None,
    }
}

/// The manifest that a value describes. A field that the table does not name
/// has its default: no module, no bound on memory, an empty config, no
/// allowed hosts, no allowed paths, and the default timeout. A timeout given
/// as the absent value means no timeout.
pub open spec fn manifest_of(v: Value) -> Option<ManifestView> {
    match v {
        Value::Table(entries) => {
            let e = entries@;
            let wasm = match given(e, Shape::Manifest, 0) {
                Some(x) => as_wasm_list(x),
                None => Some(Seq::empty()),
            };
            let memory = match given(e, Shape::Manifest, 1) {
                Some(x) => memory_of(x),
                None => Some(None),
            };
            let config = match given(e, Shape::Manifest, 2) {
                Some(x) => as_text_table(x),
                None => Some(Map::empty()),
            };
            let hosts = match given(e, Shape::Manifest, 3) {
                Some(x) => as_opt_text_list(x),
                None => Some(None),
            };
            let paths = match given(e, Shape::Manifest, 4) {
                Some(x) => as_opt_paths(x),
                None => Some(None),
            };
            let timeout = match given(e, Shape::Manifest, 5) {
                Some(x) => as_opt_u64(x),
                None => Some(Some(DEFAULT_TIMEOUT_MS)),
            };
            if strict(e, Shape::Manifest) && wasm is Some && memory is Some && config is Some
                && hosts is Some && paths is Some && timeout is Some {
                Some(
                    ManifestView {
                        wasm: wasm->0,
                        max_pages: memory->0,
                        config: config->0,
                        allowed_hosts: hosts->0,
                        allowed_paths: paths->0,
                        timeout_ms: timeout->0,
                    },
                )
            } else {
                None
            }
        },
        _ => None,
    }
}

/// Whether two texts are the same.
pub fn same_text(a: &str, b: &str) -> (same: bool)
    ensures
        same == (a@ == b@),
{
    let x = a.as_bytes();
    let y = b.as_bytes();
    if x.len() != y.len() {
        return false;
    }
    let n = x.len();
    let mut i: usize = 0;
    while i < n
        invariant
            i <= n,
            n == x@.len(),
            n == y@.len(),
            x@ == a.spec_bytes(),
            y@ == b.spec_bytes(),
            forall|j: int| 0 <= j < i ==> x@[j] == y@[j],
        decreases n - i,
    {
        if x[i] != y[i] {
            return false;
        }
        i += 1;
    }
    proof {
        assert(x@ =~= y@);
        encode_utf8_decode_utf8(a@);
        encode_utf8_decode_utf8(b@);
    }
    true
}

/// The field that `key` names in a table of the shape.
pub fn field_index(shape: Shape, key: &str) -> (field: Option<usize>)
    ensures
        match field {
            Some(f) => field_of(shape, key@) == Some(f as nat) && f < field_count(shape),
            None => field_of(shape, key@) is None,
        },
{
    match shape {
        Shape::Manifest => {
            if same_text(key, "wasm") {
                Some(0)
            } else if same_text(key, "memory") {
                Some(1)
            } else if same_text(key, "config") {
                Some(2)
            } else if same_text(key, "allowed_hosts") {
                Some(3)
            } else if same_text(key, "allowed_paths") {
                Some(4)
            } else if same_text(key, "timeout_ms") {
                Some(5)
            } else {
                None
            }
        },
        Shape::Memory => {
            if same_text(key, "max_pages") || same_text(key, "max") {
                Some(0)
            } else {
                None
            }
        },
        Shape::Wasm => {
            if same_text(key, "path") {
                Some(0)
            } else if same_text(key, "data") {
                Some(1)
            } else if same_text(key, "url") {
                Some(2)
            } else if same_text(key, "headers") || same_text(key, "header") {
                Some(3)
            } else if same_text(key, "method") {
                Some(4)
            } else if same_text(key, "name") {
                Some(5)
            } else if same_text(key, "hash") {
                Some(6)
            } else {
                None
            }
        },
    }
}

/// The number of fields that a table of the shape can have.
fn count_fields(shape: Shape) -> (n: usize)
    ensures
        n == field_count(shape),
{
    match shape {
        Shape::Manifest => 6,
        Shape::Memory => 1,
        Shape::Wasm => 7,
    }
}

/// Where a table gives each field of the shape.
pub open spec fn placed(entries: Seq<(String, Value)>, shape: Shape, slots: Seq<Option<usize>>) -> bool {
    &&& slots.len() == field_count(shape)
    &&& forall|f: int|
        0 <= f < slots.len() ==> match #[trigger] slots[f] {
            Some(i) => gives(entries, shape, f as nat, i as int) && given(entries, shape, f as nat)
                == Some(entries[i as int].1),
            None => given(entries, shape, f as nat) is None,
        }
}

/// In a strict table the entry that gives a field is the only one that does.
pub proof fn lemma_given_unique(entries: Seq<(String, Value)>, shape: Shape, field: nat, i: int)
    requires
        strict(entries, shape),
        gives(entries, shape, field, i),
    ensures
        given(entries, shape, field) == Some(entries[i].1),
{
    let j = choose|j: int| gives(entries, shape, field, j);
    if i < j {
        assert(field_of(shape, entries[i].0@) != field_of(shape, entries[j].0@));
    }
    if j < i {
        assert(field_of(shape, entries[j].0@) != field_of(shape, entries[i].0@));
    }
}

/// For each field of the shape the position of the entry that gives it, or
/// none where the table is not strict.
pub fn place_fields(entries: &Vec<(String, Value)>, shape: Shape) -> (r: Option<Vec<Option<usize>>>)
    ensures
        match r {
            Some(slots) => strict(entries@, shape) && placed(entries@, shape, slots@),
            None => !strict(entries@, shape),
        },
{
    let count = count_fields(shape);
    let mut slots: Vec<Option<usize>> = Vec::new();
    let mut f: usize = 0;
    while f < count
        invariant
            f <= count,
            slots@.len() == f,
            forall|g: int| 0 <= g < f ==> slots@[g] is None,
        decreases count - f,
    {
        slots.push(None);
        f += 1;
    }
    let n = entries.len();
    let mut i: usize = 0;
    while i < n
        invariant
            i <= n,
            n == entries@.len(),
            count == field_count(shape),
            slots@.len() == count,
            strict(entries@.subrange(0, i as int), shape),
            forall|g: int|
                0 <= g < count ==> ((#[trigger] slots@[g]) matches Some(k) ==> k < i && gives(
                    entries@,
                    shape,
                    g as nat,
                    k as int,
                )),
            forall|g: nat, k: int|
                g < count && slots@[g as int] is None && 0 <= k < i ==> !#[trigger] gives(
                    entries@,
                    shape,
                    g,
                    k,
                ),
        decreases n - i,
    {
        let ghost done = entries@.subrange(0, i as int);
        let ghost next = entries@.subrange(0, i + 1);
        let field = match field_index(shape, entries[i].0.as_str()) {
            Some(field) => field,
            None => {
                proof {
                    assert(field_of(shape, entries@[i as int].0@) is None);
                }
                return None;
            },
        };
        if slots[field].is_some() {
            proof {
                let k = slots@[field as int]->0 as int;
                assert(gives(entries@, shape, field as nat, k));
                assert(field_of(shape, entries@[k].0@) == field_of(shape, entries@[i as int].0@));
            }
            return None;
        }
        proof {
            assert(gives(entries@, shape, field as nat, i as int));
            assert forall|a: int| 0 <= a < next.len() implies field_of(
                shape,
                (#[trigger] next[a]).0@,
            ) is Some by {
                if a < i {
                    assert(done[a] == next[a]);
                }
            }
            assert forall|a: int, b: int| 0 <= a < b < next.len() implies field_of(
                shape,
                (#[trigger] next[a]).0@,
            ) != field_of(shape, (#[trigger] next[b]).0@) by {
                assert(next[a] == entries@[a]);
                assert(next[b] == entries@[b]);
                if b < i {
                    assert(done[a] == next[a]);
                    assert(done[b] == next[b]);
                } else {
                    assert(slots@[field as int] is None);
                    assert(!gives(entries@, shape, field as nat, a));
                    assert(done[a] == next[a]);
                    assert(field_of(shape, done[a].0@) is Some);
                }
            }
        }
        slots.set(field, Some(i));
        i += 1;
    }
    proof {
        assert(entries@.subrange(0, n as int) == entries@);
        assert forall|g: int| 0 <= g < slots@.len() implies match #[trigger] slots@[g] {
            Some(k) => gives(entries@, shape, g as nat, k as int) && given(
                entries@,
                shape,
                g as nat,
            ) == Some(entries@[k as int].1),
            None => given(entries@, shape, g as nat) is None,
        } by {
            match slots@[g] {
                Some(k) => {
                    lemma_given_unique(entries@, shape, g as nat, k as int);
                },
                None => {},
            }
        }
    }
    Some(slots)
}

/// The text that a value is.
pub fn read_text(v: &Value) -> (r: Result<String, ValidationError>)
    ensures
        match r {
            Ok(s) => as_text(*v) == Some(s@),
            Err(_) => as_text(*v) is None,
        },
{
    match v {
        Value::Text(s) => Ok(s.clone()),
        _ => Err(ValidationError::Malformed),
    }
}

/// The text that a value is, where the absent value stands for no text.
pub fn read_opt_text(v: &Value) -> (r: Result<Option<String>, ValidationError>)
    ensures
        match r {
            Ok(Some(s)) => as_opt_text(*v) == Some(Some(s@)),
            Ok(None) => as_opt_text(*v) == Some(None::<Seq<char>>),
            Err(_) => as_opt_text(*v) is None,
        },
{
    match v {
        Value::Null => Ok(None),
        Value::Text(s) => Ok(Some(s.clone())),
        _ => Err(ValidationError::Malformed),
    }
}

/// The number below 2^32 that a value is, where the absent value stands for
/// no number.
pub fn read_opt_u32(v: &Value) -> (r: Result<Option<u32>, ValidationError>)
    ensures
        match r {
            Ok(n) => as_opt_u32(*v) == Some(n),
            Err(_) => as_opt_u32(*v) is None,
        },
{
    match v {
        Value::Null => Ok(None),
        Value::Integer(n) => {
            if 0 <= *n && *n <= 0xffff_ffff {
                Ok(Some(*n as u32))
            } else {
                Err(ValidationError::Malformed)
            }
        },
        _ => Err(ValidationError::Malformed),
    }
}

/// The number below 2^64 that a value is, where the absent value stands for
/// no number.
pub fn read_opt_u64(v: &Value) -> (r: Result<Option<u64>, ValidationError>)
    ensures
        match r {
            Ok(n) => as_opt_u64(*v) == Some(n),
            Err(_) => as_opt_u64(*v) is None,
        },
{
    match v {
        Value::Null => Ok(None),
        Value::Integer(n) => {
            if 0 <= *n && *n <= 0xffff_ffff_ffff_ffff {
                Ok(Some(*n as u64))
            } else {
                Err(ValidationError::Malformed)
            }
        },
        _ => Err(ValidationError::Malformed),
    }
}

/// The list of texts that a value is.
pub fn read_text_list(v: &Value) -> (r: Result<Vec<String>, ValidationError>)
    ensures
        match r {
            Ok(list) => as_text_list(*v) == Some(crate::manifest::texts(list@)),
            Err(_) => as_text_list(*v) is None,
        },
{
    let items = match v {
        Value::List(items) => items,
        _ => {
            return Err(ValidationError::Malformed);
        },
    };
    let mut list: Vec<String> = Vec::new();
    let n = items.len();
    let mut i: usize = 0;
    while i < n
        invariant
            i <= n,
            n == items@.len(),
            list@.len() == i,
            *v == Value::List(*items),
            forall|j: int| 0 <= j < i ==> as_text(#[trigger] items@[j]) == Some(list@[j]@),
        decreases n - i,
    {
        match &items[i] {
            Value::Text(s) => {
                list.push(s.clone());
            },
            _ => {
                assert(as_text(items@[i as int]) is None);
                return Err(ValidationError::Malformed);
            },
        }
        i += 1;
    }
    assert(all_text(items@));
    assert(texts_of(items@) =~= crate::manifest::texts(list@));
    Ok(list)
}

/// The map from texts to texts that a value is.
pub fn read_text_table(v: &Value) -> (r: Result<TextMap<String>, ValidationError>)
    ensures
        match r {
            Ok(map) => as_text_table(*v) == Some(map@),
            Err(_) => as_text_table(*v) is None,
        },
{
    let entries = match v {
        Value::Table(entries) => entries,
        _ => {
            return Err(ValidationError::Malformed);
        },
    };
    let mut map: TextMap<String> = TextMap::new();
    let n = entries.len();
    let mut i: usize = 0;
    while i < n
        invariant
            i <= n,
            n == entries@.len(),
            *v == Value::Table(*entries),
            forall|j: int| 0 <= j < i ==> as_text((#[trigger] entries@[j]).1) is Some,
            map@ == written(Map::empty(), text_pairs(entries@).subrange(0, i as int)),
        decreases n - i,
    {
        match &entries[i].1 {
            Value::Text(s) => {
                proof {
                    let done = text_pairs(entries@).subrange(0, i as int);
                    let next = text_pairs(entries@).subrange(0, i + 1);
                    assert(next.drop_last() == done);
                    assert(next.last() == (entries@[i as int].0@, s@));
                }
                map.insert(entries[i].0.clone(), s.clone());
            },
            _ => {
                assert(as_text(entries@[i as int].1) is None);
                return Err(ValidationError::Malformed);
            },
        }
        i += 1;
    }
    assert(all_text_values(entries@));
    assert(text_pairs(entries@).subrange(0, n as int) == text_pairs(entries@));
    Ok(map)
}

/// The paths that a value is.
pub fn read_paths(v: &Value) -> (r: Result<PathMap, ValidationError>)
    ensures
        match r {
            Ok(paths) => as_paths(*v) == Some(paths@),
            Err(_) => as_paths(*v) is None,
        },
{
    let entries = match v {
        Value::Table(entries) => entries,
        _ => {
            return Err(ValidationError::Malformed);
        },
    };
    let mut paths = PathMap::new();
    let n = entries.len();
    let mut i: usize = 0;
    while i < n
        invariant
            i <= n,
            n == entries@.len(),
            *v == Value::Table(*entries),
            forall|j: int| 0 <= j < i ==> as_text((#[trigger] entries@[j]).1) is Some,
            paths@ == mounts(Map::empty(), text_pairs(entries@).subrange(0, i as int)),
        decreases n - i,
    {
        match &entries[i].1 {
            Value::Text(s) => {
                proof {
                    let done = text_pairs(entries@).subrange(0, i as int);
                    let next = text_pairs(entries@).subrange(0, i + 1);
                    assert(next.drop_last() == done);
                    assert(next.last() == (entries@[i as int].0@, s@));
                }
                paths.mount(entries[i].0.clone(), s.clone());
            },
            _ => {
                assert(as_text(entries@[i as int].1) is None);
                return Err(ValidationError::Malformed);
            },
        }
        i += 1;
    }
    assert(all_text_values(entries@));
    assert(text_pairs(entries@).subrange(0, n as int) == text_pairs(entries@));
    Ok(paths)
}

/// The memory settings that a value describes.
pub fn read_memory(v: &Value) -> (r: Result<MemoryOptions, ValidationError>)
    ensures
        match r {
            Ok(memory) => memory_of(*v) == Some(memory.max_pages),
            Err(_) => memory_of(*v) is None,
        },
{
    let entries = match v {
        Value::Table(entries) => entries,
        _ => {
            return Err(ValidationError::Malformed);
        },
    };
    let slots = match place_fields(entries, Shape::Memory) {
        Some(slots) => slots,
        None => {
            return Err(ValidationError::Malformed);
        },
    };
    let max_pages = match slots[0] {
        Some(i) => read_opt_u32(&entries[i].1)?,
        None => None,
    };
    Ok(MemoryOptions { max_pages })
}

/// The module source that a value describes.
pub fn read_wasm(v: &Value) -> (r: Result<Wasm, ValidationError>)
    ensures
        match r {
            Ok(wasm) => wasm_of(*v) == Some(wasm@),
            Err(_) => wasm_of(*v) is None,
        },
{
    let entries = match v {
        Value::Table(entries) => entries,
        _ => {
            return Err(ValidationError::Malformed);
        },
    };
    let slots = match place_fields(entries, Shape::Wasm) {
        Some(slots) => slots,
        None => {
            return Err(ValidationError::Malformed);
        },
    };
    let name = match slots[5] {
        Some(i) => read_opt_text(&entries[i].1)?,
        None => None,
    };
    let hash = match slots[6] {
        Some(i) => read_opt_text(&entries[i].1)?,
        None => None,
    };
    let meta = WasmMetadata { name, hash };
    assert(meta_of(entries@) == Some(meta@));
    let plain = slots[3].is_none() && slots[4].is_none();
    match (slots[0], slots[1], slots[2]) {
        (Some(i), None, None) => {
            if !plain {
                return Err(ValidationError::Malformed);
            }
            let path = read_text(&entries[i].1)?;
            Ok(Wasm::File { path, meta })
        },
        (None, Some(i), None) => {
            if !plain {
                return Err(ValidationError::Malformed);
            }
            let text = read_text(&entries[i].1)?;
            let data = deserialize(text.as_str())?;
            Ok(Wasm::Data { data, meta })
        },
        (None, None, Some(i)) => {
            let url = read_text(&entries[i].1)?;
            let headers = match slots[3] {
                Some(j) => read_text_table(&entries[j].1)?,
                None => TextMap::new(),
            };
            let method = match slots[4] {
                Some(j) => read_opt_text(&entries[j].1)?,
                None => None,
            };
            let req = HttpRequest { url, headers, method };
            assert(request_of(entries@) == Some(req@));
            Ok(Wasm::Url { req, meta })
        },
        _ => Err(ValidationError::Malformed),
    }
}

/// The module sources that a value lists.
pub fn read_wasm_list(v: &Value) -> (r: Result<Vec<Wasm>, ValidationError>)
    ensures
        match r {
            Ok(list) => as_wasm_list(*v) == Some(list@.map_values(|w: Wasm| w@)),
            Err(_) => as_wasm_list(*v) is None,
        },
{
    let items = match v {
        Value::List(items) => items,
        _ => {
            return Err(ValidationError::Malformed);
        },
    };
    let mut list: Vec<Wasm> = Vec::new();
    let n = items.len();
    let mut i: usize = 0;
    while i < n
        invariant
            i <= n,
            n == items@.len(),
            list@.len() == i,
            *v == Value::List(*items),
            forall|j: int| 0 <= j < i ==> wasm_of(#[trigger] items@[j]) == Some(list@[j]@),
        decreases n - i,
    {
        match read_wasm(&items[i]) {
            Ok(wasm) => {
                list.push(wasm);
            },
            Err(e) => {
                return Err(e);
            },
        }
        i += 1;
    }
    assert(all_wasm(items@));
    assert(Seq::new(items@.len(), |i: int| wasm_of(items@[i])->0) =~= list@.map_values(
        |w: Wasm| w@,
    ));
    Ok(list)
}

/// The manifest that a value describes, or a refusal where it describes none.
pub fn read_manifest(v: &Value) -> (r: Result<Manifest, ValidationError>)
    ensures
        match r {
            Ok(manifest) => manifest_of(*v) == Some(manifest@),
            Err(e) => manifest_of(*v) is None && e == ValidationError::Malformed,
        },
{
    let entries = match v {
        Value::Table(entries) => entries,
        _ => {
            return Err(ValidationError::Malformed);
        },
    };
    let slots = match place_fields(entries, Shape::Manifest) {
        Some(slots) => slots,
        None => {
            return Err(ValidationError::Malformed);
        },
    };
    let wasm = match slots[0] {
        Some(i) => match read_wasm_list(&entries[i].1) {
            Ok(list) => list,
            Err(_) => {
                return Err(ValidationError::Malformed);
            },
        },
        None => Vec::new(),
    };
    assert(slots@[0] is None ==> wasm@.map_values(|w: Wasm| w@) == Seq::<WasmView>::empty());
    let memory = match slots[1] {
        Some(i) => match read_memory(&entries[i].1) {
            Ok(memory) => memory,
            Err(_) => {
                return Err(ValidationError::Malformed);
            },
        },
        None => MemoryOptions { max_pages: None },
    };
    let config = match slots[2] {
        Some(i) => match read_text_table(&entries[i].1) {
            Ok(map) => map,
            Err(_) => {
                return Err(ValidationError::Malformed);
            },
        },
        None => TextMap::new(),
    };
    let allowed_hosts = match slots[3] {
        Some(i) => match &entries[i].1 {
            Value::Null => None,
            other => match read_text_list(other) {
                Ok(list) => Some(list),
                Err(_) => {
                    return Err(ValidationError::Malformed);
                },
            },
        },
        None => None,
    };
    let allowed_paths = match slots[4] {
        Some(i) => match &entries[i].1 {
            Value::Null => None,
            other => match read_paths(other) {
                Ok(map) => Some(map),
                Err(_) => {
                    return Err(ValidationError::Malformed);
                },
            },
        },
        None => None,
    };
    let timeout_ms = match slots[5] {
        Some(i) => match read_opt_u64(&entries[i].1) {
            Ok(t) => t,
            Err(_) => {
                return Err(ValidationError::Malformed);
            },
        },
        None => Some(DEFAULT_TIMEOUT_MS),
    };
    Ok(Manifest { wasm, memory, config, allowed_hosts, allowed_paths, timeout_ms })
}

/// A memory table with one entry, under either name of its field, describes
/// a bound of that many pages.
pub proof fn lemma_memory_alias(entries: Vec<(String, Value)>, pages: u32)
    requires
        entries@.len() == 1,
        entries@[0].0@ == "max"@ || entries@[0].0@ == "max_pages"@,
        entries@[0].1 == Value::Integer(pages as i128),
    ensures
        memory_of(Value::Table(entries)) == Some(Some(pages)),
{
    assert(gives(entries@, Shape::Memory, 0, 0));
    lemma_given_unique(entries@, Shape::Memory, 0, 0);
}

/// A description that names the memory settings only, and in them a bound
/// under either name of that field, is the manifest with that bound and the
/// default for every other field.
pub proof fn lemma_memory_only_manifest(
    outer: Vec<(String, Value)>,
    inner: Vec<(String, Value)>,
    pages: u32,
)
    requires
        outer@.len() == 1,
        outer@[0].0@ == "memory"@,
        outer@[0].1 == Value::Table(inner),
        inner@.len() == 1,
        inner@[0].0@ == "max"@ || inner@[0].0@ == "max_pages"@,
        inner@[0].1 == Value::Integer(pages as i128),
    ensures
        manifest_of(Value::Table(outer)) == Some(
            ManifestView { max_pages: Some(pages), ..crate::manifest::plain_manifest(Seq::empty()) },
        ),
{
    lemma_memory_alias(inner, pages);
    reveal_strlit("memory");
    reveal_strlit("wasm");
    assert("memory"@ != "wasm"@) by {
        assert("memory"@.len() != "wasm"@.len());
    }
    assert(gives(outer@, Shape::Manifest, 1, 0));
    lemma_given_unique(outer@, Shape::Manifest, 1, 0);
    assert forall|f: nat| f != 1 implies given(outer@, Shape::Manifest, f) is None by {
        if exists|i: int| gives(outer@, Shape::Manifest, f, i) {
            let i = choose|i: int| gives(outer@, Shape::Manifest, f, i);
            assert(i == 0);
        }
    }
}

} // verus!
