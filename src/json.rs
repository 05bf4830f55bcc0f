use vstd::prelude::*;

verus! {

/// A JSON value, as the records of the services are read from and written to.
/// Objects keep their members in order.
#[derive(Debug)]
pub enum Json {
    Null,
    Bool(bool),
    /// A non-negative integer that fits in 64 bits.
    Number(u64),
    /// Any other number, as it was written.
    OtherNumber(String),
    Text(String),
    Array(Vec<Json>),
    Object(Vec<(String, Json)>),
}

/// The value of the first member named `key`.
pub open spec fn lookup(members: Seq<(String, Json)>, key: Seq<char>) -> Option<Json>
    decreases members.len(),
{
    if members.len() == 0 {
        None
    } else if members[0].0@ == key {
        Some(members[0].1)
    } else {
        lookup(members.drop_first(), key)
    }
}

/// The member `key` of an object; nothing for any other value.
pub open spec fn field(j: Json, key: Seq<char>) -> Option<Json> {
    match j {
        Json::Object(members) => lookup(members@, key),
        _ => None,
    }
}

/// A required text member.
pub open spec fn text_value(f: Option<Json>) -> Option<String> {
    match f {
        Some(Json::Text(s)) => Some(s),
        _ => None,
    }
}

/// A required member that holds a non-negative integer.
pub open spec fn u64_value(f: Option<Json>) -> Option<u64> {
    match f {
        Some(Json::Number(n)) => Some(n),
        _ => None,
    }
}

/// An optional member that holds a boolean: absent and `null` both mean none.
pub open spec fn opt_bool_value(f: Option<Json>) -> Option<Option<bool>> {
    match f {
        None => Some(None),
        Some(Json::Null) => Some(None),
        Some(Json::Bool(b)) => Some(Some(b)),
        _ => None,
    }
}

/// An optional member that holds an integer in 0..=65535.
pub open spec fn opt_u16_value(f: Option<Json>) -> Option<Option<u16>> {
    match f {
        None => Some(None),
        Some(Json::Null) => Some(None),
        Some(Json::Number(n)) => if n <= u16::MAX {
            Some(Some(n as u16))
        } else {
            None
        },
        _ => None,
    }
}

/// The strings of an array whose items are all text.
pub open spec fn strings_value(j: Json) -> Option<Seq<String>> {
    match j {
        Json::Array(items) => if forall|i: int| 0 <= i < items@.len() ==> #[trigger] items@[i] is Text {
            Some(Seq::new(items@.len(), |i: int| items@[i]->Text_0))
        } else {
            None
        },
        _ => None,
    }
}

/// The name and text of each member of an object whose values are all text.
pub open spec fn pairs_value(j: Json) -> Option<Seq<(String, String)>> {
    match j {
        Json::Object(members) => if forall|i: int|
            0 <= i < members@.len() ==> #[trigger] members@[i].1 is Text {
            Some(Seq::new(members@.len(), |i: int| (members@[i].0, members@[i].1->Text_0)))
        } else {
            None
        },
        _ => None,
    }
}

/// A required member that holds an array of text.
pub open spec fn req_strings_value(f: Option<Json>) -> Option<Seq<String>> {
    match f {
        Some(j) => strings_value(j),
        None => None,
    }
}

/// An optional member that holds an array of text.
pub open spec fn opt_strings_value(f: Option<Json>) -> Option<Option<Seq<String>>> {
    match f {
        None => Some(None),
        Some(Json::Null) => Some(None),
        Some(j) => match strings_value(j) {
            Some(v) => Some(Some(v)),
            None => None,
        },
    }
}

/// An optional member that holds an object of text.
pub open spec fn opt_pairs_value(f: Option<Json>) -> Option<Option<Seq<(String, String)>>> {
    match f {
        None => Some(None),
        Some(Json::Null) => Some(None),
        Some(j) => match pairs_value(j) {
            Some(v) => Some(Some(v)),
            None => None,
        },
    }
}

/// `j` is the array of the texts `v`, in order.
pub open spec fn is_strings_form(v: Seq<String>, j: Json) -> bool {
    &&& j is Array
    &&& j->Array_0@.len() == v.len()
    &&& forall|i: int| 0 <= i < v.len() ==> #[trigger] j->Array_0@[i] == Json::Text(v[i])
}

/// `j` is the object whose members are the pairs `v`, in order.
pub open spec fn is_pairs_form(v: Seq<(String, String)>, j: Json) -> bool {
    &&& j is Object
    &&& j->Object_0@.len() == v.len()
    &&& forall|i: int|
        0 <= i < v.len() ==> #[trigger] j->Object_0@[i] == (v[i].0, Json::Text(v[i].1))
}

pub open spec fn is_opt_strings_form(v: Option<Seq<String>>, j: Json) -> bool {
    match v {
        None => j is Null,
        Some(s) => is_strings_form(s, j),
    }
}

pub open spec fn is_opt_pairs_form(v: Option<Seq<(String, String)>>, j: Json) -> bool {
    match v {
        None => j is Null,
        Some(s) => is_pairs_form(s, j),
    }
}

pub open spec fn opt_bool_form(v: Option<bool>) -> Json {
    match v {
        None => Json::Null,
        Some(b) => Json::Bool(b),
    }
}

pub open spec fn opt_u16_form(v: Option<u16>) -> Json {
    match v {
        None => Json::Null,
        Some(n) => Json::Number(n as u64),
    }
}

proof fn lemma_lookup_skip(members: Seq<(String, Json)>, i: int, key: Seq<char>)
    requires
        0 <= i < members.len(),
        members[i].0@ != key,
    ensures
        lookup(members.subrange(i, members.len() as int), key) == lookup(
            members.subrange(i + 1, members.len() as int),
            key,
        ),
{
    let rest = members.subrange(i, members.len() as int);
    assert(rest.drop_first() =~= members.subrange(i + 1, members.len() as int));
}

/// The member `key` of `j`, if `j` is an object that has one.
pub fn get_field<'a>(j: &'a Json, key: &str) -> (r: Option<&'a Json>)
    ensures
        r is None <==> field(*j, key@) is None,
        r is Some ==> field(*j, key@) == Some(*r->0),
{
    match j {
        Json::Object(members) => {
            let wanted = String::from_str(key);
            let mut i: usize = 0;
            assert(members@.subrange(0, members@.len() as int) =~= members@);
            while i < members.len()
                invariant
                    0 <= i <= members@.len(),
                    wanted@ == key@,
                    field(*j, key@) == lookup(members@, key@),
                    lookup(members@, key@) == lookup(
                        members@.subrange(i as int, members@.len() as int),
                        key@,
                    ),
                decreases members.len() - i,
            {
                if members[i].0 == wanted {
                    let ghost rest = members@.subrange(i as int, members@.len() as int);
                    assert(rest[0] == members@[i as int]);
                    assert(lookup(rest, key@) == Some(rest[0].1));
                    return Some(&members[i].1);
                }
                proof {
                    lemma_lookup_skip(members@, i as int, key@);
                }
                i = i + 1;
            }
            None
        },
        _ => None,
    }
}

/// The contents of an optional vector.
pub open spec fn opt_seq<T>(v: Option<Vec<T>>) -> Option<Seq<T>> {
    match v {
        Some(x) => Some(x@),
        None => None,
    }
}

fn strings_from(j: &Json) -> (r: Option<Vec<String>>)
    ensures
        opt_seq(r) == strings_value(*j),
{
    match j {
        Json::Array(items) => {
            let mut out: Vec<String> = Vec::new();
            let mut i: usize = 0;
            while i < items.len()
                invariant
                    0 <= i <= items@.len(),
                    *j == Json::Array(*items),
                    out@.len() == i,
                    forall|k: int| 0 <= k < i ==> #[trigger] items@[k] is Text && out@[k] == items@[k]->Text_0,
                decreases items.len() - i,
            {
                match &items[i] {
                    Json::Text(s) => out.push(s.clone()),
                    _ => {
                        assert(!(items@[i as int] is Text));
                        return None;
                    },
                }
                i = i + 1;
            }
            assert(out@ =~= Seq::new(items@.len(), |k: int| items@[k]->Text_0));
            Some(out)
        },
        _ => None,
    }
}

fn pairs_from(j: &Json) -> (r: Option<Vec<(String, String)>>)
    ensures
        opt_seq(r) == pairs_value(*j),
{
    match j {
        Json::Object(members) => {
            let mut out: Vec<(String, String)> = Vec::new();
            let mut i: usize = 0;
            while i < members.len()
                invariant
                    0 <= i <= members@.len(),
                    *j == Json::Object(*members),
                    out@.len() == i,
                    forall|k: int|
                        0 <= k < i ==> #[trigger] members@[k].1 is Text && out@[k] == (
                            members@[k].0,
                            members@[k].1->Text_0,
                        ),
                decreases members.len() - i,
            {
                match &members[i].1 {
                    Json::Text(s) => out.push((members[i].0.clone(), s.clone())),
                    _ => {
                        assert(!(members@[i as int].1 is Text));
                        return None;
                    },
                }
                i = i + 1;
            }
            assert(out@ =~= Seq::new(
                members@.len(),
                |k: int| (members@[k].0, members@[k].1->Text_0),
            ));
            Some(out)
        },
        _ => None,
    }
}

/// Reads the required text member `key`.
pub fn read_text(obj: &Json, key: &str) -> (r: Option<String>)
    ensures
        r == text_value(field(*obj, key@)),
{
    match get_field(obj, key) {
        Some(Json::Text(s)) => Some(s.clone()),
        _ => None,
    }
}

/// Reads the required integer member `key`.
pub fn read_u64(obj: &Json, key: &str) -> (r: Option<u64>)
    ensures
        r == u64_value(field(*obj, key@)),
{
    match get_field(obj, key) {
        Some(Json::Number(n)) => Some(*n),
        _ => None,
    }
}

/// Reads the optional boolean member `key`.
pub fn read_opt_bool(obj: &Json, key: &str) -> (r: Option<Option<bool>>)
    ensures
        r == opt_bool_value(field(*obj, key@)),
{
    match get_field(obj, key) {
        None => Some(None),
        Some(Json::Null) => Some(None),
        Some(Json::Bool(b)) => Some(Some(*b)),
        _ => None,
    }
}

/// Reads the optional member `key`, an integer in 0..=65535.
pub fn read_opt_u16(obj: &Json, key: &str) -> (r: Option<Option<u16>>)
    ensures
        r == opt_u16_value(field(*obj, key@)),
{
    match get_field(obj, key) {
        None => Some(None),
        Some(Json::Null) => Some(None),
        Some(Json::Number(n)) => if *n <= 65535 {
            Some(Some(*n as u16))
        } else {
            None
        },
        _ => None,
    }
}

/// Reads the required member `key`, an array of text.
pub fn read_strings(obj: &Json, key: &str) -> (r: Option<Vec<String>>)
    ensures
        opt_seq(r) == req_strings_value(field(*obj, key@)),
{
    match get_field(obj, key) {
        Some(v) => strings_from(v),
        None => None,
    }
}

/// Reads the optional member `key`, an array of text.
pub fn read_opt_strings(obj: &Json, key: &str) -> (r: Option<Option<Vec<String>>>)
    ensures
        r is Some <==> opt_strings_value(field(*obj, key@)) is Some,
        r is Some ==> opt_seq(r->0) == opt_strings_value(field(*obj, key@))->0,
{
    match get_field(obj, key) {
        None => Some(None),
        Some(Json::Null) => Some(None),
        Some(v) => match strings_from(v) {
            Some(x) => Some(Some(x)),
            None => None,
        },
    }
}

/// Reads the optional member `key`, an object whose values are text.
pub fn read_opt_pairs(obj: &Json, key: &str) -> (r: Option<Option<Vec<(String, String)>>>)
    ensures
        r is Some <==> opt_pairs_value(field(*obj, key@)) is Some,
        r is Some ==> opt_seq(r->0) == opt_pairs_value(field(*obj, key@))->0,
{
    match get_field(obj, key) {
        None => Some(None),
        Some(Json::Null) => Some(None),
        Some(v) => match pairs_from(v) {
            Some(x) => Some(Some(x)),
            None => None,
        },
    }
}

/// Writes texts as an array.
pub fn strings_json(v: &Vec<String>) -> (r: Json)
    ensures
        is_strings_form(v@, r),
{
    let mut items: Vec<Json> = Vec::new();
    let mut i: usize = 0;
    while i < v.len()
        invariant
            0 <= i <= v@.len(),
            items@.len() == i,
            forall|k: int| 0 <= k < i ==> #[trigger] items@[k] == Json::Text(v@[k]),
        decreases v.len() - i,
    {
        items.push(Json::Text(v[i].clone()));
        i = i + 1;
    }
    Json::Array(items)
}

/// Writes pairs of texts as an object, in order.
pub fn pairs_json(v: &Vec<(String, String)>) -> (r: Json)
    ensures
        is_pairs_form(v@, r),
{
    let mut members: Vec<(String, Json)> = Vec::new();
    let mut i: usize = 0;
    while i < v.len()
        invariant
            0 <= i <= v@.len(),
            members@.len() == i,
            forall|k: int| 0 <= k < i ==> #[trigger] members@[k] == (v@[k].0, Json::Text(v@[k].1)),
        decreases v.len() - i,
    {
        members.push((v[i].0.clone(), Json::Text(v[i].1.clone())));
        i = i + 1;
    }
    Json::Object(members)
}

pub fn opt_strings_json(v: &Option<Vec<String>>) -> (r: Json)
    ensures
        is_opt_strings_form(opt_seq(*v), r),
{
    match v {
        Some(x) => strings_json(x),
        None => Json::Null,
    }
}

pub fn opt_pairs_json(v: &Option<Vec<(String, String)>>) -> (r: Json)
    ensures
        is_opt_pairs_form(opt_seq(*v), r),
{
    match v {
        Some(x) => pairs_json(x),
        None => Json::Null,
    }
}

pub fn opt_bool_json(v: Option<bool>) -> (r: Json)
    ensures
        r == opt_bool_form(v),
{
    match v {
        Some(b) => Json::Bool(b),
        None => Json::Null,
    }
}

pub fn opt_u16_json(v: Option<u16>) -> (r: Json)
    ensures
        r == opt_u16_form(v),
{
    match v {
        Some(n) => Json::Number(n as u64),
        None => Json::Null,
    }
}

/// A field written as `opt_strings_json` reads back as the same value.
pub proof fn lemma_opt_strings_round_trip(v: Option<Seq<String>>, j: Json)
    requires
        is_opt_strings_form(v, j),
    ensures
        opt_strings_value(Some(j)) == Some(v),
{
    if let Some(s) = v {
        let items = j->Array_0@;
        assert(Seq::new(items.len(), |i: int| items[i]->Text_0) =~= s);
    }
}

/// A field written as `opt_pairs_json` reads back as the same value.
pub proof fn lemma_opt_pairs_round_trip(v: Option<Seq<(String, String)>>, j: Json)
    requires
        is_opt_pairs_form(v, j),
    ensures
        opt_pairs_value(Some(j)) == Some(v),
{
    if let Some(s) = v {
        let m = j->Object_0@;
        assert(Seq::new(m.len(), |i: int| (m[i].0, m[i].1->Text_0)) =~= s);
    }
}

/// A field written as `strings_json` reads back as the same texts.
pub proof fn lemma_strings_round_trip(v: Seq<String>, j: Json)
    requires
        is_strings_form(v, j),
    ensures
        req_strings_value(Some(j)) == Some(v),
{
    let items = j->Array_0@;
    assert(Seq::new(items.len(), |i: int| items[i]->Text_0) =~= v);
}

/// An optional text member: absent and `null` both mean none.
pub open spec fn opt_text_value(f: Option<Json>) -> Option<Option<String>> {
    match f {
        None => Some(None),
        Some(Json::Null) => Some(None),
        Some(Json::Text(s)) => Some(Some(s)),
        _ => None,
    }
}

pub open spec fn opt_text_form(v: Option<String>) -> Json {
    match v {
        None => Json::Null,
        Some(s) => Json::Text(s),
    }
}

/// Reads the optional text member `key`.
pub fn read_opt_text(obj: &Json, key: &str) -> (r: Option<Option<String>>)
    ensures
        r == opt_text_value(field(*obj, key@)),
{
    match get_field(obj, key) {
        None => Some(None),
        Some(Json::Null) => Some(None),
        Some(Json::Text(s)) => Some(Some(s.clone())),
        _ => None,
    }
}

pub fn opt_text_json(v: &Option<String>) -> (r: Json)
    ensures
        r == opt_text_form(*v),
{
    match v {
        Some(s) => Json::Text(s.clone()),
        None => Json::Null,
    }
}

/// A record with a JSON form: an object with one member per field.
pub trait WireRecord: View + Sized {
    /// `j` is the written form of the record.
    spec fn is_wire_form(&self, j: Json) -> bool;

    /// The record that `j` reads as: nothing where a required member is missing
    /// or a member has the wrong type; members of other names are ignored.
    spec fn read_spec(j: Json) -> Option<Self::V>;

    /// Writes the record in its wire form.
    fn to_json(&self) -> (j: Json)
        ensures
            self.is_wire_form(j),
    ;

    /// Reads a record from a JSON value.
    fn from_json(j: &Json) -> (r: Option<Self>)
        ensures
            r is Some <==> Self::read_spec(*j) is Some,
            r is Some ==> r->0@ == Self::read_spec(*j)->0,
    ;

    /// Reading the written form of a record gives back every field.
    proof fn lemma_round_trip(r: Self, j: Json)
        requires
            r.is_wire_form(j),
        ensures
            Self::read_spec(j) == Some(r@),
    ;
}

/// What decoding a body gives: the record, when the body parsed as JSON and that
/// JSON reads as a record; otherwise the reason why not.
pub open spec fn decoded_record<T: WireRecord>(parsed: Result<Json, String>) -> Option<T::V> {
    match parsed {
        Ok(j) => T::read_spec(j),
        Err(_) => None,
    }
}

/// Decodes a record from a body that was parsed as JSON, or gives the reason
/// why it cannot be had: the parser's own, or a member that is missing or has the
/// wrong type.
pub fn decode_record<T: WireRecord>(parsed: Result<Json, String>) -> (r: Result<T, String>)
    ensures
        r is Ok <==> decoded_record::<T>(parsed) is Some,
        r is Ok ==> r->Ok_0@ == decoded_record::<T>(parsed)->0,
        parsed is Err ==> r == Err::<T, String>(parsed->Err_0),
{
    match parsed {
        Err(reason) => Err(reason),
        Ok(j) => match T::from_json(&j) {
            Some(v) => Ok(v),
            None => Err(String::from_str("a required member is missing or has the wrong type")),
        },
    }
}

/// The views of the records of a vector.
pub open spec fn views<T: View>(v: Seq<T>) -> Seq<T::V> {
    Seq::new(v.len(), |i: int| v[i]@)
}

/// `j` is the array of the written forms of the records `v`, in order.
pub open spec fn is_records_form<T: WireRecord>(v: Seq<T>, j: Json) -> bool {
    &&& j is Array
    &&& j->Array_0@.len() == v.len()
    &&& forall|i: int| 0 <= i < v.len() ==> (#[trigger] v[i]).is_wire_form(j->Array_0@[i])
}

/// The records of an array whose items all read as records.
pub open spec fn records_value<T: WireRecord>(j: Json) -> Option<Seq<T::V>> {
    match j {
        Json::Array(items) => if forall|i: int|
            0 <= i < items@.len() ==> #[trigger] T::read_spec(items@[i]) is Some {
            Some(Seq::new(items@.len(), |i: int| T::read_spec(items@[i])->0))
        } else {
            None
        },
        _ => None,
    }
}

/// A required member that holds an array of records.
pub open spec fn req_records_value<T: WireRecord>(f: Option<Json>) -> Option<Seq<T::V>> {
    match f {
        Some(j) => records_value::<T>(j),
        None => None,
    }
}

/// An optional member that holds an array of records.
pub open spec fn opt_records_value<T: WireRecord>(f: Option<Json>) -> Option<Option<Seq<T::V>>> {
    match f {
        None => Some(None),
        Some(Json::Null) => Some(None),
        Some(j) => match records_value::<T>(j) {
            Some(v) => Some(Some(v)),
            None => None,
        },
    }
}

pub open spec fn is_opt_records_form<T: WireRecord>(v: Option<Seq<T>>, j: Json) -> bool {
    match v {
        None => j is Null,
        Some(s) => is_records_form(s, j),
    }
}

pub open spec fn opt_views<T: View>(v: Option<Vec<T>>) -> Option<Seq<T::V>> {
    match v {
        Some(x) => Some(views(x@)),
        None => None,
    }
}

/// A required member that holds one record.
pub open spec fn record_value<T: WireRecord>(f: Option<Json>) -> Option<T::V> {
    match f {
        Some(j) => T::read_spec(j),
        None => None,
    }
}

/// The views of named records.
pub open spec fn named_views<T: View>(v: Seq<(String, T)>) -> Seq<(String, T::V)> {
    Seq::new(v.len(), |i: int| (v[i].0, v[i].1@))
}

/// `j` is the object whose members are the named records `v`, in order.
pub open spec fn is_named_records_form<T: WireRecord>(v: Seq<(String, T)>, j: Json) -> bool {
    &&& j is Object
    &&& j->Object_0@.len() == v.len()
    &&& forall|i: int|
        0 <= i < v.len() ==> j->Object_0@[i].0 == (#[trigger] v[i]).0 && v[i].1.is_wire_form(
            j->Object_0@[i].1,
        )
}

/// The named records of an object whose values all read as records.
pub open spec fn named_records_value<T: WireRecord>(f: Option<Json>) -> Option<Seq<(String, T::V)>> {
    match f {
        Some(Json::Object(m)) => if forall|i: int|
            0 <= i < m@.len() ==> #[trigger] T::read_spec(m@[i].1) is Some {
            Some(Seq::new(m@.len(), |i: int| (m@[i].0, T::read_spec(m@[i].1)->0)))
        } else {
            None
        },
        _ => None,
    }
}

fn records_from<T: WireRecord>(j: &Json) -> (r: Option<Vec<T>>)
    ensures
        r is Some <==> records_value::<T>(*j) is Some,
        r is Some ==> views(r->0@) == records_value::<T>(*j)->0,
{
    match j {
        Json::Array(items) => {
            let mut out: Vec<T> = Vec::new();
            let mut i: usize = 0;
            while i < items.len()
                invariant
                    0 <= i <= items@.len(),
                    *j == Json::Array(*items),
                    out@.len() == i,
                    forall|k: int|
                        0 <= k < i ==> #[trigger] T::read_spec(items@[k]) is Some && out@[k]@
                            == T::read_spec(items@[k])->0,
                decreases items.len() - i,
            {
                match T::from_json(&items[i]) {
                    Some(x) => out.push(x),
                    None => return None,
                }
                i = i + 1;
            }
            assert(views(out@) =~= Seq::new(items@.len(), |k: int| T::read_spec(items@[k])->0));
            Some(out)
        },
        _ => None,
    }
}

/// Reads the required member `key`, an array of records.
pub fn read_records<T: WireRecord>(obj: &Json, key: &str) -> (r: Option<Vec<T>>)
    ensures
        r is Some <==> req_records_value::<T>(field(*obj, key@)) is Some,
        r is Some ==> views(r->0@) == req_records_value::<T>(field(*obj, key@))->0,
{
    match get_field(obj, key) {
        Some(v) => records_from(v),
        None => None,
    }
}

/// Reads the optional member `key`, an array of records.
pub fn read_opt_records<T: WireRecord>(obj: &Json, key: &str) -> (r: Option<Option<Vec<T>>>)
    ensures
        r is Some <==> opt_records_value::<T>(field(*obj, key@)) is Some,
        r is Some ==> opt_views(r->0) == opt_records_value::<T>(field(*obj, key@))->0,
{
    match get_field(obj, key) {
        None => Some(None),
        Some(Json::Null) => Some(None),
        Some(v) => match records_from(v) {
            Some(x) => Some(Some(x)),
            None => None,
        },
    }
}

/// Reads the required member `key`, one record.
pub fn read_record<T: WireRecord>(obj: &Json, key: &str) -> (r: Option<T>)
    ensures
        r is Some <==> record_value::<T>(field(*obj, key@)) is Some,
        r is Some ==> r->0@ == record_value::<T>(field(*obj, key@))->0,
{
    match get_field(obj, key) {
        Some(v) => T::from_json(v),
        None => None,
    }
}

/// Reads the required member `key`, an object of named records.
pub fn read_named_records<T: WireRecord>(obj: &Json, key: &str) -> (r: Option<Vec<(String, T)>>)
    ensures
        r is Some <==> named_records_value::<T>(field(*obj, key@)) is Some,
        r is Some ==> named_views(r->0@) == named_records_value::<T>(field(*obj, key@))->0,
{
    match get_field(obj, key) {
        Some(Json::Object(m)) => {
            let ghost f = field(*obj, key@);
            let mut out: Vec<(String, T)> = Vec::new();
            let mut i: usize = 0;
            while i < m.len()
                invariant
                    0 <= i <= m@.len(),
                    f == Some(Json::Object(*m)),
                    f == field(*obj, key@),
                    out@.len() == i,
                    forall|k: int|
                        0 <= k < i ==> #[trigger] T::read_spec(m@[k].1) is Some && out@[k].0
                            == m@[k].0 && out@[k].1@ == T::read_spec(m@[k].1)->0,
                decreases m.len() - i,
            {
                match T::from_json(&m[i].1) {
                    Some(x) => out.push((m[i].0.clone(), x)),
                    None => {
                        assert(!(T::read_spec(m@[i as int].1) is Some));
                        return None;
                    },
                }
                i = i + 1;
            }
            assert(named_views(out@) =~= Seq::new(
                m@.len(),
                |k: int| (m@[k].0, T::read_spec(m@[k].1)->0),
            ));
            Some(out)
        },
        _ => None,
    }
}

/// Writes records as an array, in order.
pub fn records_json<T: WireRecord>(v: &Vec<T>) -> (r: Json)
    ensures
        is_records_form(v@, r),
{
    let mut items: Vec<Json> = Vec::new();
    let mut i: usize = 0;
    while i < v.len()
        invariant
            0 <= i <= v@.len(),
            items@.len() == i,
            forall|k: int| 0 <= k < i ==> (#[trigger] v@[k]).is_wire_form(items@[k]),
        decreases v.len() - i,
    {
        items.push(v[i].to_json());
        i = i + 1;
    }
    Json::Array(items)
}

pub fn opt_records_json<T: WireRecord>(v: &Option<Vec<T>>) -> (r: Json)
    ensures
        is_opt_records_form(opt_seq(*v), r),
{
    match v {
        Some(x) => records_json(x),
        None => Json::Null,
    }
}

/// Writes named records as an object, in order.
pub fn named_records_json<T: WireRecord>(v: &Vec<(String, T)>) -> (r: Json)
    ensures
        is_named_records_form(v@, r),
{
    let mut members: Vec<(String, Json)> = Vec::new();
    let mut i: usize = 0;
    while i < v.len()
        invariant
            0 <= i <= v@.len(),
            members@.len() == i,
            forall|k: int|
                0 <= k < i ==> members@[k].0 == (#[trigger] v@[k]).0 && v@[k].1.is_wire_form(
                    members@[k].1,
                ),
        decreases v.len() - i,
    {
        members.push((v[i].0.clone(), v[i].1.to_json()));
        i = i + 1;
    }
    Json::Object(members)
}

pub proof fn lemma_records_round_trip<T: WireRecord>(v: Seq<T>, j: Json)
    requires
        is_records_form(v, j),
    ensures
        req_records_value::<T>(Some(j)) == Some(views(v)),
{
    let items = j->Array_0@;
    assert forall|i: int| 0 <= i < items.len() implies #[trigger] T::read_spec(items[i]) == Some(
        v[i]@,
    ) by {
        assert(v[i].is_wire_form(items[i]));
        T::lemma_round_trip(v[i], items[i]);
    }
    assert(Seq::new(items.len(), |i: int| T::read_spec(items[i])->0) =~= views(v));
}

pub proof fn lemma_opt_records_round_trip<T: WireRecord>(v: Option<Seq<T>>, j: Json)
    requires
        is_opt_records_form(v, j),
    ensures
        opt_records_value::<T>(Some(j)) == Some(
            match v {
                Some(s) => Some(views(s)),
                None => None,
            },
        ),
{
    if let Some(s) = v {
        lemma_records_round_trip(s, j);
    }
}

pub proof fn lemma_named_records_round_trip<T: WireRecord>(v: Seq<(String, T)>, j: Json)
    requires
        is_named_records_form(v, j),
    ensures
        named_records_value::<T>(Some(j)) == Some(named_views(v)),
{
    let m = j->Object_0@;
    assert forall|i: int| 0 <= i < m.len() implies #[trigger] T::read_spec(m[i].1) == Some(
        v[i].1@,
    ) by {
        assert(m[i].0 == v[i].0 && v[i].1.is_wire_form(m[i].1));
        T::lemma_round_trip(v[i].1, m[i].1);
    }
    assert(Seq::new(m.len(), |i: int| (m[i].0, T::read_spec(m[i].1)->0)) =~= named_views(v));
}

pub proof fn lemma_record_round_trip<T: WireRecord>(v: T, j: Json)
    requires
        v.is_wire_form(j),
    ensures
        record_value::<T>(Some(j)) == Some(v@),
{
    T::lemma_round_trip(v, j);
}

/// The member found for `key` is the first one that bears that name.
pub proof fn lemma_lookup_at(members: Seq<(String, Json)>, i: int, key: Seq<char>)
    requires
        0 <= i < members.len(),
        members[i].0@ == key,
        forall|k: int| 0 <= k < i ==> (#[trigger] members[k]).0@ != key,
    ensures
        lookup(members, key) == Some(members[i].1),
    decreases i,
{
    if i > 0 {
        let rest = members.drop_first();
        assert forall|k: int| 0 <= k < i - 1 implies (#[trigger] rest[k]).0@ != key by {
            assert(rest[k] == members[k + 1]);
        }
        lemma_lookup_at(rest, i - 1, key);
    }
}

/// The key of member `i` of an object.
pub open spec fn key_at(j: Json, i: int) -> Seq<char> {
    j->Object_0@[i].0@
}

/// The value of member `i` of an object.
pub open spec fn value_at(j: Json, i: int) -> Json {
    j->Object_0@[i].1
}

/// `j` is an object of `n` members whose keys are `keys`, in order.
pub open spec fn has_keys(j: Json, keys: Seq<Seq<char>>) -> bool {
    &&& j is Object
    &&& j->Object_0@.len() == keys.len()
    &&& forall|i: int| 0 <= i < keys.len() ==> #[trigger] key_at(j, i) == keys[i]
}

/// In an object with distinct keys, each key finds its own member.
pub proof fn lemma_field_of_distinct_keys(j: Json, keys: Seq<Seq<char>>, i: int)
    requires
        has_keys(j, keys),
        0 <= i < keys.len(),
        forall|a: int, b: int| 0 <= a < b < keys.len() ==> keys[a] != keys[b],
    ensures
        field(j, keys[i]) == Some(value_at(j, i)),
{
    let m = j->Object_0@;
    assert(key_at(j, i) == keys[i]);
    assert forall|k: int| 0 <= k < i implies (#[trigger] m[k]).0@ != keys[i] by {
        assert(key_at(j, k) == keys[k]);
    }
    lemma_lookup_at(m, i, keys[i]);
}

} // verus!
