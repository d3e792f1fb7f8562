//! Task items generated from a JSON document in a pipeline variable.
use vstd::prelude::*;
use crate::strmap::{StrMap, text_view};
use crate::accumulator::{GenerateItemsAction, DynamicItemMapping};
use crate::text::{chars_of, string_from, str_eq, concat_str, bool_text, bool_to_string};

verus! {

/// A JSON document, as the logic reads it. A number keeps its text; an
/// object keeps its members in order.
pub enum JsonValue {
    Null,
    Bool(bool),
    Number(String),
    Str(String),
    Array(Vec<JsonValue>),
    Object(Vec<(String, JsonValue)>),
}

#[verifier::external_type_specification]
#[verifier::external_body]
pub struct ExSerdeJsonValue(serde_json::Value);

/// The document that `serde_json::from_str::<serde_json::Value>` reads from
/// a text, in this library's form; `None` when the text is not JSON.
pub uninterp spec fn json_document(text: Seq<char>) -> Option<JsonValue>;

/// Trusted: changes a `serde_json::Value` into the library's form, variant
/// for variant (a number as serde_json writes it, object members in the
/// order the map yields them). Nothing is stated of it here: its result is
/// named through `parse_json_document`.
#[verifier::external_body]
fn json_from_serde(v: &serde_json::Value) -> (r: JsonValue) {
    match v {
        serde_json::Value::Null => JsonValue::Null,
        serde_json::Value::Bool(b) => JsonValue::Bool(*b),
        serde_json::Value::Number(n) => JsonValue::Number(n.to_string()),
        serde_json::Value::String(t) => JsonValue::Str(t.clone()),
        serde_json::Value::Array(a) => JsonValue::Array(a.iter().map(json_from_serde).collect()),
        serde_json::Value::Object(o) => JsonValue::Object(
            o.iter().map(|(k, x)| (k.clone(), json_from_serde(x))).collect(),
        ),
    }
}

/// Trusted: calls `serde_json::from_str::<serde_json::Value>` on the text and
/// converts a parsed value with `json_from_serde`; a parse error gives `None`.
/// The result depends on the text alone and is named `json_document`.
#[verifier::external_body]
pub(crate) fn parse_json_document(text: &str) -> (r: Option<JsonValue>)
    ensures
        r == json_document(text@),
{
    serde_json::from_str::<serde_json::Value>(text).ok().map(|v| json_from_serde(&v))
}

/// The pieces of `s` between dots; the last one may be empty.
pub open spec fn dot_pieces(s: Seq<char>) -> Seq<Seq<char>>
    decreases s.len(),
{
    if s.len() == 0 {
        seq![Seq::empty()]
    } else {
        let r = dot_pieces(s.drop_last());
        if s.last() == '.' {
            r.push(Seq::empty())
        } else {
            r.update(r.len() - 1, r.last().push(s.last()))
        }
    }
}

proof fn lemma_dot_pieces_len(s: Seq<char>)
    ensures
        dot_pieces(s).len() >= 1,
    decreases s.len(),
{
    if s.len() > 0 {
        lemma_dot_pieces_len(s.drop_last());
    }
}

/// The keys a path names: `$` is the document itself and `$.a.b` the member
/// `b` of the member `a`; anything else (or an empty key) is no path.
pub open spec fn path_keys(path: Seq<char>) -> Option<Seq<Seq<char>>> {
    if path == seq!['$'] {
        Some(Seq::empty())
    } else if path.len() >= 2 && path[0] == '$' && path[1] == '.' {
        let ks = dot_pieces(path.skip(2));
        if forall|i: int| 0 <= i < ks.len() ==> (#[trigger] ks[i]).len() > 0 {
            Some(ks)
        } else {
            None
        }
    } else {
        None
    }
}

/// The views of a list of character vectors.
pub open spec fn vviews(v: Seq<Vec<char>>) -> Seq<Seq<char>> {
    v.map_values(|x: Vec<char>| x@)
}

/// Parses a path into its keys (see `path_keys`).
pub fn parse_path(path: &str) -> (r: Option<Vec<Vec<char>>>)
    ensures
        match r {
            Some(ks) => path_keys(path@) == Some(vviews(ks@)),
            None => path_keys(path@) is None,
        },
{
    let p = chars_of(path);
    let n = p.len();
    if n == 1 && p[0] == '$' {
        assert(p@ =~= seq!['$']);
        return Some(Vec::new());
    }
    if !(n >= 2 && p[0] == '$' && p[1] == '.') {
        assert(p@ != seq!['$']) by {
            if p@ == seq!['$'] {
                assert(p@.len() == 1);
            }
        }
        return None;
    }
    assert(p@ != seq!['$']) by {
        assert(p@.len() >= 2);
    }
    let ghost s = p@.skip(2);
    let mut done: Vec<Vec<char>> = Vec::new();
    let mut cur: Vec<char> = Vec::new();
    let mut i: usize = 2;
    assert(s.take(0) =~= Seq::<char>::empty());
    while i < n
        invariant
            n == p@.len(),
            2 <= i <= n,
            s == p@.skip(2),
            p@ == path@,
            vviews(done@) == dot_pieces(s.take(i - 2)).drop_last(),
            cur@ == dot_pieces(s.take(i - 2)).last(),
        decreases n - i,
    {
        let ghost k = i - 2;
        let ghost pc = dot_pieces(s.take(k));
        proof {
            lemma_dot_pieces_len(s.take(k));
            assert(s.take(k + 1).drop_last() =~= s.take(k));
            assert(s.take(k + 1).last() == p@[i as int]);
        }
        let c = p[i];
        if c == '.' {
            let ghost before = vviews(done@);
            let piece = cur;
            let ghost pv = piece@;
            done.push(piece);
            cur = Vec::new();
            proof {
                assert(vviews(done@) =~= before.push(pv));
                assert(pc.push(Seq::empty()).drop_last() =~= pc);
                assert(pc =~= pc.drop_last().push(pc.last()));
            }
        } else {
            cur.push(c);
            proof {
                let np = pc.update(pc.len() - 1, pc.last().push(c));
                assert(np.drop_last() =~= pc.drop_last());
            }
        }
        i = i + 1;
    }
    assert(s.take(n - 2) =~= s);
    proof {
        lemma_dot_pieces_len(s);
    }
    let ghost before = vviews(done@);
    done.push(cur);
    let ghost ks = dot_pieces(s);
    assert(vviews(done@) =~= ks) by {
        assert(vviews(done@) =~= before.push(ks.last()));
        assert(ks =~= ks.drop_last().push(ks.last()));
    }
    let mut j: usize = 0;
    while j < done.len()
        invariant
            j <= done@.len(),
            vviews(done@) == ks,
            ks == dot_pieces(s),
            s == p@.skip(2),
            p@ == path@,
            p@.len() >= 2 && p@[0] == '$' && p@[1] == '.',
            p@ != seq!['$'],
            forall|t: int| 0 <= t < j ==> (#[trigger] ks[t]).len() > 0,
        decreases done@.len() - j,
    {
        assert(ks[j as int] == done@[j as int]@);
        if done[j].len() == 0 {
            assert(ks[j as int].len() == 0);
            assert(path@ == p@);
            return None;
        }
        j = j + 1;
    }
    Some(done)
}

/// The first member of an object with the key `k`.
pub open spec fn member(entries: Seq<(String, JsonValue)>, k: Seq<char>) -> Option<JsonValue>
    decreases entries.len(),
{
    if entries.len() == 0 {
        None
    } else if entries[0].0@ == k {
        Some(entries[0].1)
    } else {
        member(entries.drop_first(), k)
    }
}

/// The value the keys lead to, through members of objects.
pub open spec fn lookup(v: JsonValue, keys: Seq<Seq<char>>) -> Option<JsonValue>
    decreases keys.len(),
{
    if keys.len() == 0 {
        Some(v)
    } else {
        match v {
            JsonValue::Object(es) => match member(es@, keys[0]) {
                Some(c) => lookup(c, keys.drop_first()),
                None => None,
            },
            _ => None,
        }
    }
}

pub fn find_member(entries: &Vec<(String, JsonValue)>, k: &Vec<char>) -> (r: Option<usize>)
    ensures
        match r {
            Some(i) => i < entries@.len() && member(entries@, k@) == Some(entries@[i as int].1),
            None => member(entries@, k@) is None,
        },
{
    let mut i: usize = 0;
    assert(entries@.skip(0) =~= entries@);
    while i < entries.len()
        invariant
            i <= entries@.len(),
            member(entries@, k@) == member(entries@.skip(i as int), k@),
        decreases entries@.len() - i,
    {
        let key = chars_of(entries[i].0.as_str());
        assert(entries@.skip(i as int)[0] == entries@[i as int]);
        assert(entries@.skip(i as int).drop_first() =~= entries@.skip(i + 1));
        if crate::text::seq_eq(&key, k) {
            return Some(i);
        }
        i = i + 1;
    }
    None
}

/// Follows the keys from `v` (see `lookup`).
pub fn lookup_value<'a>(v: &'a JsonValue, keys: &Vec<Vec<char>>) -> (r: Option<&'a JsonValue>)
    ensures
        match r {
            Some(x) => lookup(*v, vviews(keys@)) == Some(*x),
            None => lookup(*v, vviews(keys@)) is None,
        },
{
    let ghost kv = vviews(keys@);
    let mut cur: &JsonValue = v;
    let mut i: usize = 0;
    assert(kv.skip(0) =~= kv);
    while i < keys.len()
        invariant
            i <= keys@.len(),
            kv == vviews(keys@),
            lookup(*v, kv) == lookup(*cur, kv.skip(i as int)),
        decreases keys@.len() - i,
    {
        let ghost rest = kv.skip(i as int);
        assert(rest[0] == keys@[i as int]@);
        assert(rest.drop_first() =~= kv.skip(i + 1));
        match cur {
            JsonValue::Object(es) => match find_member(es, &keys[i]) {
                Some(j) => {
                    cur = &es[j].1;
                },
                None => {
                    return None;
                },
            },
            _ => {
                return None;
            },
        }
        i = i + 1;
    }
    assert(kv.skip(keys@.len() as int) =~= Seq::<Seq<char>>::empty());
    Some(cur)
}

/// The text of a scalar: a string itself, a number's text, `true` or
/// `false`; other values have none.
pub open spec fn scalar_text(v: JsonValue) -> Option<Seq<char>> {
    match v {
        JsonValue::Str(s) => Some(s@),
        JsonValue::Number(n) => Some(n@),
        JsonValue::Bool(b) => Some(bool_text(b)),
        _ => None,
    }
}

/// The text a path leads to in `v`, if any.
pub open spec fn field_text(v: JsonValue, path: Seq<char>) -> Option<Seq<char>> {
    match path_keys(path) {
        None => None,
        Some(ks) => match lookup(v, ks) {
            Some(x) => scalar_text(x),
            None => None,
        },
    }
}

/// The view of an optional string.
pub open spec fn opt_view(o: Option<String>) -> Option<Seq<char>> {
    match o {
        Some(s) => Some(s@),
        None => None,
    }
}

/// Reads the scalar text a path leads to (see `field_text`).
pub fn extract_field(value: &JsonValue, path: &str) -> (r: Option<String>)
    ensures
        opt_view(r) == field_text(*value, path@),
{
    let keys = match parse_path(path) {
        Some(k) => k,
        None => {
            return None;
        },
    };
    match lookup_value(value, &keys) {
        Some(x) => match x {
            JsonValue::Str(s) => Some(s.clone()),
            JsonValue::Number(n) => Some(n.clone()),
            JsonValue::Bool(b) => Some(bool_to_string(*b)),
            _ => None,
        },
        None => None,
    }
}

/// Why a document holds no items array at a path.
pub enum ArrayPathError {
    /// The path is not of the form `$` or `$.key(.key)*`.
    BadPath,
    /// The path leads nowhere in the document.
    NotFound,
    /// The path leads to a value that is not an array.
    NotAnArray,
}

/// The array a path leads to, or why there is none.
pub open spec fn array_at(doc: JsonValue, path: Seq<char>) -> Result<Seq<JsonValue>, ArrayPathError> {
    match path_keys(path) {
        None => Err(ArrayPathError::BadPath),
        Some(ks) => match lookup(doc, ks) {
            None => Err(ArrayPathError::NotFound),
            Some(JsonValue::Array(items)) => Ok(items@),
            Some(_) => Err(ArrayPathError::NotAnArray),
        },
    }
}

/// Finds the array a path leads to (see `array_at`).
pub fn extract_json_array<'a>(doc: &'a JsonValue, path: &str) -> (r: Result<&'a Vec<JsonValue>, ArrayPathError>)
    ensures
        match r {
            Ok(items) => array_at(*doc, path@) == Ok::<Seq<JsonValue>, ArrayPathError>(items@),
            Err(e) => array_at(*doc, path@) == Err::<Seq<JsonValue>, ArrayPathError>(e),
        },
{
    let keys = match parse_path(path) {
        Some(k) => k,
        None => {
            return Err(ArrayPathError::BadPath);
        },
    };
    match lookup_value(doc, &keys) {
        None => Err(ArrayPathError::NotFound),
        Some(x) => match x {
            JsonValue::Array(items) => Ok(items),
            _ => Err(ArrayPathError::NotAnArray),
        },
    }
}

} // verus!

verus! {

/// A task item to create from a generated entry.
pub struct NewDynamicItem {
    pub item_id: String,
    pub label: Option<String>,
    pub vars: StrMap<String>,
}

/// The variables an entry yields: for each mapped variable, in order, the
/// text its path leads to, when there is one.
pub open spec fn item_vars(v: JsonValue, mapped: Seq<(String, String)>) -> Map<Seq<char>, Seq<char>>
    decreases mapped.len(),
{
    if mapped.len() == 0 {
        Map::empty()
    } else {
        let m = item_vars(v, mapped.drop_last());
        let (name, path) = mapped.last();
        match field_text(v, path@) {
            Some(t) => m.insert(name@, t),
            None => m,
        }
    }
}

/// An item as the logic sees it: its id, label and variables.
pub struct ItemView {
    pub item_id: Seq<char>,
    pub label: Option<Seq<char>>,
    pub vars: Map<Seq<char>, Seq<char>>,
}

impl NewDynamicItem {
    pub open spec fn view_of(&self) -> ItemView {
        ItemView { item_id: self.item_id@, label: opt_view(self.label), vars: text_view(self.vars) }
    }
}

/// The item an entry yields, or none when its id path leads to no text.
pub open spec fn item_of(v: JsonValue, m: DynamicItemMapping) -> Option<ItemView> {
    match field_text(v, m.item_id@) {
        None => None,
        Some(id) => Some(
            ItemView {
                item_id: id,
                label: match m.label {
                    Some(p) => field_text(v, p@),
                    None => None,
                },
                vars: item_vars(v, m.vars.entries@),
            },
        ),
    }
}

/// The items the entries yield, in order, skipping entries without an id.
pub open spec fn items_of(entries: Seq<JsonValue>, m: DynamicItemMapping) -> Seq<ItemView>
    decreases entries.len(),
{
    if entries.len() == 0 {
        Seq::empty()
    } else {
        let rest = items_of(entries.drop_last(), m);
        match item_of(entries.last(), m) {
            Some(x) => rest.push(x),
            None => rest,
        }
    }
}

/// The views of a list of items.
pub open spec fn item_views(v: Seq<NewDynamicItem>) -> Seq<ItemView> {
    v.map_values(|x: NewDynamicItem| x.view_of())
}

fn item_from(v: &JsonValue, m: &DynamicItemMapping) -> (r: Option<NewDynamicItem>)
    ensures
        match r {
            Some(x) => item_of(*v, *m) == Some(x.view_of()),
            None => item_of(*v, *m) is None,
        },
{
    let item_id = match extract_field(v, m.item_id.as_str()) {
        Some(id) => id,
        None => {
            return None;
        },
    };
    let label = match &m.label {
        Some(p) => extract_field(v, p.as_str()),
        None => None,
    };
    let mut vars: StrMap<String> = StrMap::new();
    let ghost mapped = m.vars.entries@;
    let mut i: usize = 0;
    assert(mapped.take(0) =~= Seq::<(String, String)>::empty());
    assert(text_view(vars) =~= Map::<Seq<char>, Seq<char>>::empty());
    while i < m.vars.entries.len()
        invariant
            i <= mapped.len(),
            mapped == m.vars.entries@,
            text_view(vars) == item_vars(*v, mapped.take(i as int)),
        decreases mapped.len() - i,
    {
        assert(mapped.take(i + 1).drop_last() =~= mapped.take(i as int));
        assert(mapped.take(i + 1).last() == mapped[i as int]);
        let e = &m.vars.entries[i];
        match extract_field(v, e.1.as_str()) {
            Some(t) => {
                vars.put(e.0.clone(), t);
            },
            None => {},
        }
        i = i + 1;
    }
    assert(mapped.take(mapped.len() as int) =~= mapped);
    Some(NewDynamicItem { item_id, label, vars })
}

/// The items of all entries (see `items_of`).
pub fn items_from_entries(entries: &Vec<JsonValue>, mapping: &DynamicItemMapping) -> (r: Vec<
    NewDynamicItem,
>)
    ensures
        item_views(r@) == items_of(entries@, *mapping),
{
    let mut out: Vec<NewDynamicItem> = Vec::new();
    let mut i: usize = 0;
    assert(entries@.take(0) =~= Seq::<JsonValue>::empty());
    assert(item_views(out@) =~= Seq::<ItemView>::empty());
    while i < entries.len()
        invariant
            i <= entries@.len(),
            item_views(out@) == items_of(entries@.take(i as int), *mapping),
        decreases entries@.len() - i,
    {
        assert(entries@.take(i + 1).drop_last() =~= entries@.take(i as int));
        assert(entries@.take(i + 1).last() == entries@[i as int]);
        match item_from(&entries[i], mapping) {
            Some(x) => {
                let ghost before = item_views(out@);
                let ghost xv = x.view_of();
                out.push(x);
                assert(item_views(out@) =~= before.push(xv));
            },
            None => {},
        }
        i = i + 1;
    }
    assert(entries@.take(entries@.len() as int) =~= entries@);
    out
}

/// Why no items could be generated.
pub enum GenerateItemsError {
    /// The pipeline variable the action reads is not set.
    MissingVar(String),
    /// The variable's text is not a JSON document.
    InvalidJson(String),
    /// The document holds no array at the action's path.
    NoArray(ArrayPathError),
}

/// The items an action generates from pipeline variables. `document` is
/// the variable's text parsed as JSON, or none when it is not JSON.
pub open spec fn spec_extract_dynamic_items(
    vars: StrMap<String>,
    action: GenerateItemsAction,
    document: Option<JsonValue>,
) -> Result<Seq<ItemView>, GenerateItemsError> {
    if vars.spec_get(action.from_var@) is None {
        Err(GenerateItemsError::MissingVar(action.from_var))
    } else {
        match document {
            None => Err(GenerateItemsError::InvalidJson(action.from_var)),
            Some(doc) => match array_at(doc, action.json_path@) {
                Err(e) => Err(GenerateItemsError::NoArray(e)),
                Ok(entries) => Ok(items_of(entries, action.mapping)),
            },
        }
    }
}

/// Generates the items of an action (see `spec_extract_dynamic_items`):
/// the action's variable must be set, its text (parsed into `document`)
/// must hold an array at the action's path, and each entry with an id
/// becomes an item.
pub fn extract_dynamic_items_from_document(
    pipeline_vars: &StrMap<String>,
    action: &GenerateItemsAction,
    document: &Option<JsonValue>,
) -> (r: Result<Vec<NewDynamicItem>, GenerateItemsError>)
    ensures
        match (r, spec_extract_dynamic_items(*pipeline_vars, *action, *document)) {
            (Ok(items), Ok(expected)) => item_views(items@) == expected,
            (Err(e), Err(expected)) => e == expected,
            _ => false,
        },
{
    if pipeline_vars.get(action.from_var.as_str()).is_none() {
        return Err(GenerateItemsError::MissingVar(action.from_var.clone()));
    }
    let doc = match document {
        Some(d) => d,
        None => {
            return Err(GenerateItemsError::InvalidJson(action.from_var.clone()));
        },
    };
    match extract_json_array(doc, action.json_path.as_str()) {
        Err(e) => Err(GenerateItemsError::NoArray(e)),
        Ok(entries) => Ok(items_from_entries(entries, &action.mapping)),
    }
}

/// The document held by the pipeline variable `name`, if it is set and
/// its text is JSON.
pub open spec fn var_document(vars: StrMap<String>, name: Seq<char>) -> Option<JsonValue> {
    match vars.spec_get(name) {
        Some(t) => json_document(t@),
        None => None,
    }
}

/// Generates the items of an action from the JSON text in the action's
/// pipeline variable (see `spec_extract_dynamic_items`).
pub fn extract_dynamic_items(pipeline_vars: &StrMap<String>, action: &GenerateItemsAction) -> (r: Result<
    Vec<NewDynamicItem>,
    GenerateItemsError,
>)
    ensures
        match (
            r,
            spec_extract_dynamic_items(
                *pipeline_vars,
                *action,
                var_document(*pipeline_vars, action.from_var@),
            ),
        ) {
            (Ok(items), Ok(expected)) => item_views(items@) == expected,
            (Err(e), Err(expected)) => e == expected,
            _ => false,
        },
{
    let document = match pipeline_vars.get(action.from_var.as_str()) {
        Some(text) => parse_json_document(text.as_str()),
        None => None,
    };
    extract_dynamic_items_from_document(pipeline_vars, action, &document)
}

/// The order numbers of new items placed after the current last one.
pub fn dynamic_item_order_numbers(max_order: i64, count: usize) -> (r: Vec<i64>)
    requires
        max_order + count <= i64::MAX,
        count <= i64::MAX,
    ensures
        r@.len() == count,
        forall|k: int| 0 <= k < count ==> r@[k] == max_order + k + 1,
{
    let mut out: Vec<i64> = Vec::new();
    let mut i: usize = 0;
    while i < count
        invariant
            i <= count,
            max_order + count <= i64::MAX,
            count <= i64::MAX,
            out@.len() == i,
            forall|k: int| 0 <= k < i ==> out@[k] == max_order + k + 1,
        decreases count - i,
    {
        let idx = i as i64;
        assert(idx == i);
        out.push(max_order + idx + 1);
        i = i + 1;
    }
    out
}

} // verus!
