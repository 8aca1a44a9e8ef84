//! Documents as values: what the node reads from the control server and from its files.

use crate::text::same_text;
use vstd::prelude::*;
use vstd::string::StringExecFns;

verus! {

/// A number in a document.
#[derive(Debug)]
pub enum Number {
    /// A whole number that is not negative.
    Unsigned(u64),
    /// A negative whole number.
    Negative(i64),
    /// A number of thousandths.
    Thousandths(u64),
    /// Any other number, as it was written.
    Other(String),
}

/// A document. An object has no two fields of the same name.
#[derive(Debug)]
pub enum Json {
    Null,
    Bool(bool),
    Number(Number),
    Text(String),
    Array(Vec<Json>),
    Object(Vec<(String, Json)>),
}

/// The field of this name.
pub open spec fn find_field(fields: Seq<(String, Json)>, name: Seq<char>) -> Option<Json>
    decreases fields.len(),
{
    if fields.len() == 0 {
        None
    } else if fields[0].0@ == name {
        Some(fields[0].1)
    } else {
        find_field(fields.skip(1), name)
    }
}

/// What `find_field` gives where the first field of this name is at `i`.
proof fn find_field_at(fields: Seq<(String, Json)>, name: Seq<char>, i: int)
    requires
        0 <= i <= fields.len(),
        forall|j: int| 0 <= j < i ==> (#[trigger] fields[j]).0@ != name,
        i < fields.len() ==> fields[i].0@ == name,
    ensures
        i < fields.len() ==> find_field(fields, name) == Some(fields[i].1),
        i == fields.len() ==> find_field(fields, name) is None,
    decreases i,
{
    if i > 0 {
        let rest = fields.skip(1);
        assert forall|j: int| 0 <= j < i - 1 implies (#[trigger] rest[j]).0@ != name by {
            assert(fields[j + 1].0@ != name);
        }
        assert(fields[0].0@ != name);
        find_field_at(rest, name, i - 1);
    }
}

impl Json {
    /// The field of an object; none of anything else.
    pub open spec fn field(self, name: Seq<char>) -> Option<Json> {
        match self {
            Json::Object(fields) => find_field(fields@, name),
            _ => None,
        }
    }

    /// The text, if the document is one.
    pub open spec fn text(self) -> Option<Seq<char>> {
        match self {
            Json::Text(s) => Some(s@),
            _ => None,
        }
    }

    /// The text in a field.
    pub open spec fn text_at(self, name: Seq<char>) -> Option<Seq<char>> {
        match self.field(name) {
            Some(j) => j.text(),
            None => None,
        }
    }

    /// The items in a field; none where it is no array.
    pub open spec fn items_at(self, name: Seq<char>) -> Seq<Json> {
        match self.field(name) {
            Some(Json::Array(v)) => v@,
            _ => seq![],
        }
    }

    /// The truth value in a field.
    pub open spec fn bool_at(self, name: Seq<char>) -> Option<bool> {
        match self.field(name) {
            Some(Json::Bool(b)) => Some(b),
            _ => None,
        }
    }

    /// The whole number in a field, if it is not negative.
    pub open spec fn u64_at(self, name: Seq<char>) -> Option<u64> {
        match self.field(name) {
            Some(Json::Number(Number::Unsigned(n))) => Some(n),
            _ => None,
        }
    }

    /// The whole number in a field, if it fits in 64 bits with a sign.
    pub open spec fn i64_at(self, name: Seq<char>) -> Option<i64> {
        match self.field(name) {
            Some(Json::Number(Number::Unsigned(n))) => if n <= i64::MAX {
                Some(n as i64)
            } else {
                None
            },
            Some(Json::Number(Number::Negative(n))) => Some(n),
            _ => None,
        }
    }

    /// The field of this name.
    pub fn get(&self, name: &str) -> (r: Option<&Json>)
        ensures
            r is Some <==> self.field(name@) is Some,
            r matches Some(j) ==> self.field(name@) == Some(*j),
    {
        match self {
            Json::Object(fields) => {
                let mut i: usize = 0;
                while i < fields.len()
                    invariant
                        *self == Json::Object(*fields),
                        i <= fields@.len(),
                        forall|j: int| 0 <= j < i ==> (#[trigger] fields@[j]).0@ != name@,
                    decreases fields@.len() - i,
                {
                    if same_text(fields[i].0.as_str(), name) {
                        proof {
                            find_field_at(fields@, name@, i as int);
                        }
                        return Some(&fields[i].1);
                    }
                    i += 1;
                }
                proof {
                    find_field_at(fields@, name@, i as int);
                }
                None
            },
            _ => None,
        }
    }

    /// The text, if the document is one.
    pub fn as_str(&self) -> (r: Option<&str>)
        ensures
            r is Some <==> self.text() is Some,
            r matches Some(s) ==> self.text() == Some(s@),
    {
        match self {
            Json::Text(s) => Some(s.as_str()),
            _ => None,
        }
    }

    /// The text in a field.
    pub fn str_at(&self, name: &str) -> (r: Option<&str>)
        ensures
            r is Some <==> self.text_at(name@) is Some,
            r matches Some(s) ==> self.text_at(name@) == Some(s@),
    {
        match self.get(name) {
            Some(j) => j.as_str(),
            None => None,
        }
    }

    /// The items in a field, if it is an array.
    pub fn array_at(&self, name: &str) -> (r: Option<&Vec<Json>>)
        ensures
            r is Some <==> (self.field(name@) matches Some(j) && j is Array),
            r matches Some(v) ==> self.items_at(name@) == v@,
            r is None ==> self.items_at(name@) == Seq::<Json>::empty(),
    {
        match self.get(name) {
            Some(Json::Array(v)) => Some(v),
            _ => None,
        }
    }

    /// The truth value in a field.
    pub fn get_bool(&self, name: &str) -> (r: Option<bool>)
        ensures
            r == self.bool_at(name@),
    {
        match self.get(name) {
            Some(Json::Bool(b)) => Some(*b),
            _ => None,
        }
    }

    /// The whole number in a field, if it is not negative.
    pub fn get_u64(&self, name: &str) -> (r: Option<u64>)
        ensures
            r == self.u64_at(name@),
    {
        match self.get(name) {
            Some(Json::Number(Number::Unsigned(n))) => Some(*n),
            _ => None,
        }
    }

    /// The whole number in a field, if it fits in 64 bits with a sign.
    pub fn get_i64(&self, name: &str) -> (r: Option<i64>)
        ensures
            r == self.i64_at(name@),
    {
        match self.get(name) {
            Some(Json::Number(Number::Unsigned(n))) => if *n <= 9223372036854775807 {
                Some(*n as i64)
            } else {
                None
            },
            Some(Json::Number(Number::Negative(n))) => Some(*n),
            _ => None,
        }
    }

    /// A text.
    pub fn from_text(s: &str) -> (j: Json)
        ensures
            j.text() == Some(s@),
            j.doc() == Doc::Text(s@),
    {
        Json::Text(String::from_str(s))
    }
}

/// The texts among some documents, in order.
pub open spec fn texts_among(items: Seq<Json>) -> Seq<Seq<char>>
    decreases items.len(),
{
    if items.len() == 0 {
        seq![]
    } else {
        let before = texts_among(items.drop_last());
        match items.last().text() {
            Some(s) => before.push(s),
            None => before,
        }
    }
}

/// The texts among some documents.
pub fn collect_texts(items: &Vec<Json>) -> (out: Vec<String>)
    ensures
        crate::text::texts(out@) == texts_among(items@),
{
    let mut out: Vec<String> = Vec::new();
    let mut i: usize = 0;
    assert(items@.take(0) =~= seq![]);
    assert(crate::text::texts(out@) =~= seq![]);
    while i < items.len()
        invariant
            i <= items@.len(),
            crate::text::texts(out@) == texts_among(items@.take(i as int)),
        decreases items@.len() - i,
    {
        assert(items@.take(i + 1).drop_last() =~= items@.take(i as int));
        match items[i].as_str() {
            Some(s) => {
                let t = String::from_str(s);
                proof {
                    crate::text::texts_push(out@, t);
                }
                out.push(t);
            },
            None => {},
        }
        i += 1;
    }
    assert(items@.take(items@.len() as int) =~= items@);
    out
}

/// The texts in a field.
pub fn texts_at(doc: &Json, name: &str) -> (out: Vec<String>)
    ensures
        crate::text::texts(out@) == texts_among(doc.items_at(name@)),
{
    match doc.array_at(name) {
        Some(v) => collect_texts(v),
        None => {
            let out: Vec<String> = Vec::new();
            assert(crate::text::texts(out@) =~= seq![]);
            out
        },
    }
}

/// A number as a value.
pub enum Num {
    Unsigned(u64),
    Negative(i64),
    Thousandths(u64),
    Other(Seq<char>),
}

/// A document as a value.
pub enum Doc {
    Null,
    Bool(bool),
    Number(Num),
    Text(Seq<char>),
    Array(Seq<Doc>),
    Object(Seq<(Seq<char>, Doc)>),
}

impl Number {
    /// The number as a value.
    pub open spec fn num(self) -> Num {
        match self {
            Number::Unsigned(n) => Num::Unsigned(n),
            Number::Negative(n) => Num::Negative(n),
            Number::Thousandths(n) => Num::Thousandths(n),
            Number::Other(s) => Num::Other(s@),
        }
    }

    /// Copies a number.
    pub fn copy(&self) -> (r: Number)
        ensures
            r.num() == self.num(),
    {
        match self {
            Number::Unsigned(n) => Number::Unsigned(*n),
            Number::Negative(n) => Number::Negative(*n),
            Number::Thousandths(n) => Number::Thousandths(*n),
            Number::Other(s) => Number::Other(s.clone()),
        }
    }
}

/// Some documents as values.
pub open spec fn docs(v: Seq<Json>) -> Seq<Doc>
    decreases v,
{
    if v.len() == 0 {
        seq![]
    } else {
        docs(v.drop_last()).push(v.last().doc())
    }
}

/// Some fields as values.
pub open spec fn doc_fields(v: Seq<(String, Json)>) -> Seq<(Seq<char>, Doc)>
    decreases v,
{
    if v.len() == 0 {
        seq![]
    } else {
        doc_fields(v.drop_last()).push((v.last().0@, v.last().1.doc()))
    }
}

impl Json {
    /// The document as a value.
    pub open spec fn doc(self) -> Doc
        decreases self,
    {
        match self {
            Json::Null => Doc::Null,
            Json::Bool(b) => Doc::Bool(b),
            Json::Number(n) => Doc::Number(n.num()),
            Json::Text(s) => Doc::Text(s@),
            Json::Array(v) => Doc::Array(docs(v@)),
            Json::Object(v) => Doc::Object(doc_fields(v@)),
        }
    }
}

/// Some fields, one by one.
proof fn doc_fields_at(v: Seq<(String, Json)>)
    ensures
        doc_fields(v).len() == v.len(),
        forall|i: int|
            0 <= i < v.len() ==> #[trigger] doc_fields(v)[i] == (v[i].0@, v[i].1.doc()),
    decreases v.len(),
{
    if v.len() > 0 {
        doc_fields_at(v.drop_last());
        assert forall|i: int| 0 <= i < v.len() implies #[trigger] doc_fields(v)[i] == (
            v[i].0@,
            v[i].1.doc(),
        ) by {
            if i < v.len() - 1 {
                assert(doc_fields(v.drop_last())[i] == (
                    v.drop_last()[i].0@,
                    v.drop_last()[i].1.doc(),
                ));
            }
        }
    }
}

/// The place of the first field of this name, the number of fields where there is none.
pub open spec fn field_place(fields: Seq<(Seq<char>, Doc)>, name: Seq<char>) -> int
    decreases fields.len(),
{
    if fields.len() == 0 || fields[0].0 == name {
        0
    } else {
        1 + field_place(fields.skip(1), name)
    }
}

/// What `field_place` gives.
proof fn field_place_is(fields: Seq<(Seq<char>, Doc)>, name: Seq<char>, i: int)
    requires
        0 <= i <= fields.len(),
        forall|j: int| 0 <= j < i ==> (#[trigger] fields[j]).0 != name,
        i < fields.len() ==> fields[i].0 == name,
    ensures
        field_place(fields, name) == i,
    decreases i,
{
    if i > 0 {
        let rest = fields.skip(1);
        assert forall|j: int| 0 <= j < i - 1 implies (#[trigger] rest[j]).0 != name by {
            assert(fields[j + 1].0 != name);
        }
        assert(fields[0].0 != name);
        field_place_is(rest, name, i - 1);
    }
}

/// What `field_place` gives has no field of this name before it.
proof fn field_place_has(fields: Seq<(Seq<char>, Doc)>, name: Seq<char>)
    ensures
        0 <= field_place(fields, name) <= fields.len(),
        forall|j: int| 0 <= j < field_place(fields, name) ==> (#[trigger] fields[j]).0 != name,
        field_place(fields, name) < fields.len() ==> fields[field_place(fields, name)].0 == name,
    decreases fields.len(),
{
    if fields.len() > 0 && fields[0].0 != name {
        let rest = fields.skip(1);
        field_place_has(rest, name);
        assert forall|j: int| 0 <= j < field_place(fields, name) implies (
        #[trigger] fields[j]).0 != name by {
            if j > 0 {
                assert(rest[j - 1] == fields[j]);
            }
        }
    }
}

impl Doc {
    /// The field of an object; none of anything else.
    pub open spec fn field(self, name: Seq<char>) -> Option<Doc> {
        match self {
            Doc::Object(fields) => {
                let i = field_place(fields, name);
                if 0 <= i < fields.len() {
                    Some(fields[i].1)
                } else {
                    None
                }
            },
            _ => None,
        }
    }

    /// The document with a field set; nothing becomes an object with that field alone.
    pub open spec fn with_field(self, name: Seq<char>, value: Doc) -> Doc {
        match self {
            Doc::Object(fields) => {
                let i = field_place(fields, name);
                if 0 <= i < fields.len() {
                    Doc::Object(fields.update(i, (name, value)))
                } else {
                    Doc::Object(fields.push((name, value)))
                }
            },
            Doc::Null => Doc::Object(seq![(name, value)]),
            other => other,
        }
    }

    /// The text, if the document is one.
    pub open spec fn text(self) -> Option<Seq<char>> {
        match self {
            Doc::Text(s) => Some(s),
            _ => None,
        }
    }

    /// The text in a field.
    pub open spec fn text_at(self, name: Seq<char>) -> Option<Seq<char>> {
        match self.field(name) {
            Some(d) => d.text(),
            None => None,
        }
    }

    /// The truth value in a field.
    pub open spec fn bool_at(self, name: Seq<char>) -> Option<bool> {
        match self.field(name) {
            Some(Doc::Bool(b)) => Some(b),
            _ => None,
        }
    }

    /// The whole number in a field, if it is not negative.
    pub open spec fn u64_at(self, name: Seq<char>) -> Option<u64> {
        match self.field(name) {
            Some(Doc::Number(Num::Unsigned(n))) => Some(n),
            _ => None,
        }
    }
}

/// The fields of a document are those of its value.
pub proof fn field_agrees(j: Json, name: Seq<char>)
    ensures
        j.field(name) is Some <==> j.doc().field(name) is Some,
        j.field(name) matches Some(x) ==> j.doc().field(name) == Some(x.doc()),
        j.text_at(name) == j.doc().text_at(name),
        j.bool_at(name) == j.doc().bool_at(name),
        j.u64_at(name) == j.doc().u64_at(name),
{
    match j {
        Json::Object(v) => {
            doc_fields_at(v@);
            let fields = doc_fields(v@);
            field_place_has(fields, name);
            let i = field_place(fields, name);
            assert forall|k: int| 0 <= k < i implies (#[trigger] v@[k]).0@ != name by {
                assert(fields[k].0 != name);
            }
            find_field_at(v@, name, i);
            if i < v@.len() {
                assert(fields[i] == (v@[i].0@, v@[i].1.doc()));
            }
        },
        _ => {},
    }
}

/// A field that was set has its value; the others keep theirs.
pub proof fn with_field_then_field(d: Doc, name: Seq<char>, value: Doc, other: Seq<char>)
    requires
        d is Object || d is Null,
    ensures
        d.with_field(name, value) is Object,
        d.with_field(name, value).field(other) == if other == name {
            Some(value)
        } else {
            d.field(other)
        },
{
    match d {
        Doc::Object(fields) => {
            field_place_has(fields, name);
            field_place_has(fields, other);
            let i = field_place(fields, name);
            let k = field_place(fields, other);
            let after = d.with_field(name, value)->Object_0;
            if other == name {
                assert forall|j: int| 0 <= j < i implies (#[trigger] after[j]).0 != name by {
                    assert(after[j] == fields[j]);
                }
                field_place_is(after, name, i);
            } else if k < fields.len() {
                assert forall|j: int| 0 <= j < k implies (#[trigger] after[j]).0 != other by {
                    if j != i {
                        assert(after[j] == fields[j]);
                    }
                }
                assert(after[k] == fields[k]);
                field_place_is(after, other, k);
            } else {
                assert forall|j: int| 0 <= j < after.len() implies (#[trigger] after[j]).0
                    != other by {
                    if j != i {
                        assert(after[j] == fields[j]);
                    }
                }
                field_place_is(after, other, after.len() as int);
            }
        },
        _ => {
            let after = d.with_field(name, value)->Object_0;
            if other == name {
                field_place_is(after, other, 0);
            } else {
                field_place_is(after, other, 1);
            }
        },
    }
}

/// Copies some documents.
pub fn copy_docs(v: &Vec<Json>) -> (out: Vec<Json>)
    ensures
        docs(out@) == docs(v@),
    decreases v,
{
    let mut out: Vec<Json> = Vec::new();
    let mut i: usize = 0;
    while i < v.len()
        invariant
            i <= v@.len(),
            docs(out@) == docs(v@.take(i as int)),
        decreases v@.len() - i,
    {
        let j = v[i].copy();
        proof {
            assert(v@.take(i + 1).drop_last() =~= v@.take(i as int));
            assert(out@.push(j).drop_last() =~= out@);
        }
        out.push(j);
        i += 1;
    }
    assert(v@.take(v@.len() as int) =~= v@);
    out
}

/// Copies some fields.
pub fn copy_fields(v: &Vec<(String, Json)>) -> (out: Vec<(String, Json)>)
    ensures
        doc_fields(out@) == doc_fields(v@),
    decreases v,
{
    let mut out: Vec<(String, Json)> = Vec::new();
    let mut i: usize = 0;
    while i < v.len()
        invariant
            i <= v@.len(),
            doc_fields(out@) == doc_fields(v@.take(i as int)),
        decreases v@.len() - i,
    {
        let f = (v[i].0.clone(), v[i].1.copy());
        proof {
            assert(v@.take(i + 1).drop_last() =~= v@.take(i as int));
            assert(out@.push(f).drop_last() =~= out@);
        }
        out.push(f);
        i += 1;
    }
    assert(v@.take(v@.len() as int) =~= v@);
    out
}

impl Json {
    /// Copies a document.
    pub fn copy(&self) -> (r: Json)
        ensures
            r.doc() == self.doc(),
        decreases self,
    {
        match self {
            Json::Null => Json::Null,
            Json::Bool(b) => Json::Bool(*b),
            Json::Number(n) => Json::Number(n.copy()),
            Json::Text(s) => Json::Text(s.clone()),
            Json::Array(v) => Json::Array(copy_docs(v)),
            Json::Object(v) => Json::Object(copy_fields(v)),
        }
    }

    /// An object without fields.
    pub fn empty() -> (r: Json)
        ensures
            r.doc() == Doc::Object(seq![]),
    {
        let v: Vec<(String, Json)> = Vec::new();
        assert(doc_fields(v@) =~= seq![]);
        Json::Object(v)
    }

    /// The object with a field more.
    pub fn with(self, name: &str, value: Json) -> (r: Json)
        requires
            self is Object,
        ensures
            r is Object,
            r.doc() == Doc::Object(self.doc()->Object_0.push((name@, value.doc()))),
    {
        match self {
            Json::Object(v) => {
                let mut v = v;
                let f = (String::from_str(name), value);
                assert(v@.push(f).drop_last() =~= v@);
                v.push(f);
                Json::Object(v)
            },
            other => other,
        }
    }

    /// Sets a field; nothing becomes an object with that field alone.
    pub fn put(&mut self, name: &str, value: Json)
        requires
            *old(self) is Object || *old(self) is Null,
        ensures
            final(self).doc() == old(self).doc().with_field(name@, value.doc()),
            *final(self) is Object,
    {
        let ghost before = *self;
        let ghost given = value.doc();
        match self {
            Json::Object(v) => {
                let ghost fields = v@;
                let mut i: usize = 0;
                while i < v.len() && !same_text(v[i].0.as_str(), name)
                    invariant
                        v@ == fields,
                        i <= v@.len(),
                        forall|j: int| 0 <= j < i ==> (#[trigger] fields[j]).0@ != name@,
                    decreases v@.len() - i,
                {
                    i += 1;
                }
                proof {
                    doc_fields_at(fields);
                    assert forall|j: int| 0 <= j < i implies (#[trigger] doc_fields(fields)[j]).0
                        != name@ by {
                        assert(fields[j].0@ != name@);
                    }
                    field_place_is(doc_fields(fields), name@, i as int);
                }
                let f = (String::from_str(name), value);
                if i < v.len() {
                    v.set(i, f);
                    proof {
                        doc_fields_at(v@);
                        assert(doc_fields(v@) =~= doc_fields(fields).update(
                            i as int,
                            (name@, given),
                        ));
                    }
                } else {
                    v.push(f);
                    proof {
                        doc_fields_at(v@);
                        assert(doc_fields(v@) =~= doc_fields(fields).push((name@, given)));
                    }
                }
            },
            _ => {
                let mut v: Vec<(String, Json)> = Vec::new();
                v.push((String::from_str(name), value));
                proof {
                    doc_fields_at(v@);
                    assert(doc_fields(v@) =~= seq![(name@, given)]);
                }
                *self = Json::Object(v);
            },
        }
    }

    /// A whole number that is not negative.
    pub fn from_u64(n: u64) -> (j: Json)
        ensures
            j.doc() == Doc::Number(Num::Unsigned(n)),
    {
        Json::Number(Number::Unsigned(n))
    }
}

/// A field is found by its name: the first of that name, and none where there is none.
pub proof fn fields_are_found(fields: Seq<(Seq<char>, Doc)>, name: Seq<char>, i: int)
    requires
        0 <= i <= fields.len(),
        forall|j: int| 0 <= j < i ==> (#[trigger] fields[j]).0 != name,
        i < fields.len() ==> fields[i].0 == name,
    ensures
        i < fields.len() ==> Doc::Object(fields).field(name) == Some(fields[i].1),
        i == fields.len() ==> Doc::Object(fields).field(name) is None,
{
    field_place_is(fields, name, i);
}

} // verus!
