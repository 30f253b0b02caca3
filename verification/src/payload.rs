//! The payload of an evidence event: a small key/value document with a
//! deterministic canonical serialization. The canonical form is what gets
//! hashed on append and recomputed on verification, so it is part of the
//! on-disk contract: equal payloads always canonicalize to identical text.
use vstd::prelude::*;

use crate::text::{clone_string, clone_vec_string, dec_seq, u64_to_dec};

verus! {

use vstd::string::StrSliceExecFns;
use vstd::string::StringExecFns;

/// One value of a payload document.
#[derive(Debug)]
pub enum PayloadValue {
    Null,
    Flag(bool),
    Num(u64),
    Text(String),
    Items(Vec<String>),
}

/// The mathematical shape of a value: strings are read as character
/// sequences, so two values with equal models canonicalize identically.
pub enum ValueModel {
    Null,
    Flag(bool),
    Num(u64),
    Text(Seq<char>),
    Items(Seq<Seq<char>>),
}

pub open spec fn value_model(v: PayloadValue) -> ValueModel {
    match v {
        PayloadValue::Null => ValueModel::Null,
        PayloadValue::Flag(b) => ValueModel::Flag(b),
        PayloadValue::Num(n) => ValueModel::Num(n),
        PayloadValue::Text(s) => ValueModel::Text(s@),
        PayloadValue::Items(items) => ValueModel::Items(
            items@.map_values(|s: String| s@),
        ),
    }
}

#[derive(Debug)]
pub struct PayloadField {
    pub key: String,
    pub value: PayloadValue,
}

pub open spec fn field_model(f: PayloadField) -> (Seq<char>, ValueModel) {
    (f.key@, value_model(f.value))
}

/// A payload document: an ordered list of keyed values.
#[derive(Debug)]
pub struct Payload {
    pub fields: Vec<PayloadField>,
}

pub open spec fn payload_model(p: Payload) -> Seq<(Seq<char>, ValueModel)> {
    p.fields@.map_values(|f: PayloadField| field_model(f))
}

// ---- canonical serialization, defined over models ----

/// Canonical text: a length prefix keeps the encoding unambiguous.
pub open spec fn canon_text(s: Seq<char>) -> Seq<char> {
    seq!['s'] + dec_seq(s.len() as u64) + seq![':'] + s + seq![';']
}

pub open spec fn canon_items(items: Seq<Seq<char>>) -> Seq<char>
    decreases items.len(),
{
    if items.len() == 0 {
        Seq::<char>::empty()
    } else {
        canon_text(items[0]) + canon_items(items.skip(1))
    }
}

pub open spec fn canon_value(v: ValueModel) -> Seq<char> {
    match v {
        ValueModel::Null => seq!['n', ';'],
        ValueModel::Flag(b) => if b {
            seq!['b', 't', ';']
        } else {
            seq!['b', 'f', ';']
        },
        ValueModel::Num(n) => seq!['u'] + dec_seq(n) + seq![';'],
        ValueModel::Text(s) => canon_text(s),
        ValueModel::Items(items) => seq!['l'] + dec_seq(items.len() as u64) + seq![':']
            + canon_items(items) + seq![';'],
    }
}

pub open spec fn canon_field(f: (Seq<char>, ValueModel)) -> Seq<char> {
    dec_seq(f.0.len() as u64) + seq![':'] + f.0 + seq!['='] + canon_value(f.1)
}

pub open spec fn canon_fields(fs: Seq<(Seq<char>, ValueModel)>) -> Seq<char>
    decreases fs.len(),
{
    if fs.len() == 0 {
        Seq::<char>::empty()
    } else {
        canon_field(fs[0]) + canon_fields(fs.skip(1))
    }
}

/// The canonical serialization of a whole payload.
pub open spec fn canon_payload(fs: Seq<(Seq<char>, ValueModel)>) -> Seq<char> {
    seq!['{'] + canon_fields(fs) + seq!['}']
}

proof fn lemma_canon_items_snoc(items: Seq<Seq<char>>, x: Seq<char>)
    ensures
        canon_items(items.push(x)) == canon_items(items) + canon_text(x),
    decreases items.len(),
{
    let p = items.push(x);
    if items.len() == 0 {
        assert(p[0] == x);
        assert(p.skip(1) =~= Seq::<Seq<char>>::empty());
        assert(canon_items(p) == canon_text(x) + canon_items(Seq::<Seq<char>>::empty()));
        assert(canon_text(x) + Seq::<char>::empty() =~= canon_text(x));
        assert(canon_items(items) + canon_text(x) =~= canon_text(x));
    } else {
        assert(p[0] == items[0]);
        assert(p.skip(1) =~= items.skip(1).push(x));
        lemma_canon_items_snoc(items.skip(1), x);
        assert(canon_items(p) == canon_text(items[0]) + (canon_items(items.skip(1))
            + canon_text(x)));
        assert(canon_text(items[0]) + (canon_items(items.skip(1)) + canon_text(x)) =~= (
        canon_text(items[0]) + canon_items(items.skip(1))) + canon_text(x));
        assert(canon_items(items) == canon_text(items[0]) + canon_items(items.skip(1)));
    }
}

proof fn lemma_canon_fields_snoc(fs: Seq<(Seq<char>, ValueModel)>, f: (Seq<char>, ValueModel))
    ensures
        canon_fields(fs.push(f)) == canon_fields(fs) + canon_field(f),
    decreases fs.len(),
{
    let p = fs.push(f);
    if fs.len() == 0 {
        assert(p[0] == f);
        assert(p.skip(1) =~= Seq::<(Seq<char>, ValueModel)>::empty());
        assert(canon_fields(p) == canon_field(f) + canon_fields(
            Seq::<(Seq<char>, ValueModel)>::empty(),
        ));
        assert(canon_field(f) + Seq::<char>::empty() =~= canon_field(f));
        assert(canon_fields(fs) + canon_field(f) =~= canon_field(f));
    } else {
        assert(p[0] == fs[0]);
        assert(p.skip(1) =~= fs.skip(1).push(f));
        lemma_canon_fields_snoc(fs.skip(1), f);
        assert(canon_fields(p) == canon_field(fs[0]) + (canon_fields(fs.skip(1))
            + canon_field(f)));
        assert(canon_field(fs[0]) + (canon_fields(fs.skip(1)) + canon_field(f)) =~= (
        canon_field(fs[0]) + canon_fields(fs.skip(1))) + canon_field(f));
        assert(canon_fields(fs) == canon_field(fs[0]) + canon_fields(fs.skip(1)));
    }
}

// ---- executable canonicalization ----

fn canonical_text(s: &String) -> (r: String)
    ensures
        r@ == canon_text(s@),
{
    let n = s.as_str().unicode_len();
    let mut r = String::new();
    r.push('s');
    let dec = u64_to_dec(n as u64);
    r.append(dec.as_str());
    r.push(':');
    r.append(s.as_str());
    r.push(';');
    proof {
        assert(r@ =~= canon_text(s@));
    }
    r
}

fn canonical_value(v: &PayloadValue) -> (r: String)
    ensures
        r@ == canon_value(value_model(*v)),
{
    match v {
        PayloadValue::Null => {
            let mut r = String::new();
            r.push('n');
            r.push(';');
            proof {
                assert(r@ =~= seq!['n', ';']);
            }
            r
        },
        PayloadValue::Flag(b) => {
            let mut r = String::new();
            r.push('b');
            if *b {
                r.push('t');
            } else {
                r.push('f');
            }
            r.push(';');
            proof {
                if *b {
                    assert(r@ =~= seq!['b', 't', ';']);
                } else {
                    assert(r@ =~= seq!['b', 'f', ';']);
                }
            }
            r
        },
        PayloadValue::Num(n) => {
            let mut r = String::new();
            r.push('u');
            let dec = u64_to_dec(*n);
            r.append(dec.as_str());
            r.push(';');
            proof {
                assert(r@ =~= seq!['u'] + dec_seq(*n) + seq![';']);
            }
            r
        },
        PayloadValue::Text(s) => canonical_text(s),
        PayloadValue::Items(items) => {
            let ghost model: Seq<Seq<char>> = items@.map_values(|s: String| s@);
            let mut r = String::new();
            r.push('l');
            let dec = u64_to_dec(items.len() as u64);
            r.append(dec.as_str());
            r.push(':');
            let ghost header = r@;
            let mut i: usize = 0;
            while i < items.len()
                invariant
                    i <= items@.len(),
                    model == items@.map_values(|s: String| s@),
                    model.len() == items@.len(),
                    header == seq!['l'] + dec_seq(items@.len() as u64) + seq![':'],
                    r@ == header + canon_items(model.take(i as int)),
                decreases items@.len() - i,
            {
                let part = canonical_text(&items[i]);
                r.append(part.as_str());
                proof {
                    assert(model.take(i as int).push(model[i as int]) =~= model.take(
                        i + 1 as int,
                    ));
                    lemma_canon_items_snoc(model.take(i as int), model[i as int]);
                    assert(model[i as int] == items@[i as int]@);
                }
                i = i + 1;
            }
            r.push(';');
            proof {
                assert(model.take(items@.len() as int) =~= model);
                assert(r@ =~= seq!['l'] + dec_seq(model.len() as u64) + seq![':'] + canon_items(
                    model,
                ) + seq![';']);
            }
            r
        },
    }
}

/// Builds the canonical serialization that `compute_payload_hash` hashes.
pub fn canonical_payload(p: &Payload) -> (r: String)
    ensures
        r@ == canon_payload(payload_model(*p)),
{
    let ghost model = payload_model(*p);
    let mut r = String::new();
    r.push('{');
    let mut i: usize = 0;
    while i < p.fields.len()
        invariant
            i <= p.fields@.len(),
            model == payload_model(*p),
            model.len() == p.fields@.len(),
            r@ == seq!['{'] + canon_fields(model.take(i as int)),
        decreases p.fields@.len() - i,
    {
        let f = &p.fields[i];
        let klen = f.key.as_str().unicode_len();
        let dec = u64_to_dec(klen as u64);
        r.append(dec.as_str());
        r.push(':');
        r.append(f.key.as_str());
        r.push('=');
        let vpart = canonical_value(&f.value);
        r.append(vpart.as_str());
        proof {
            assert(model.take(i as int).push(model[i as int]) =~= model.take(i + 1 as int));
            lemma_canon_fields_snoc(model.take(i as int), model[i as int]);
            assert(model[i as int] == field_model(p.fields@[i as int]));
            assert(r@ =~= seq!['{'] + canon_fields(model.take(i as int)) + canon_field(
                model[i as int],
            ));
        }
        i = i + 1;
    }
    r.push('}');
    proof {
        assert(model.take(p.fields@.len() as int) =~= model);
        assert(r@ =~= canon_payload(model));
    }
    r
}

// ---- lookup ----

/// The value stored under a key: the first field with that key wins.
pub open spec fn lookup_value(fs: Seq<(Seq<char>, ValueModel)>, key: Seq<char>) -> Option<
    ValueModel,
>
    decreases fs.len(),
{
    if fs.len() == 0 {
        Option::None
    } else if fs[0].0 == key {
        Option::Some(fs[0].1)
    } else {
        lookup_value(fs.skip(1), key)
    }
}

proof fn lemma_lookup_skip(fs: Seq<(Seq<char>, ValueModel)>, key: Seq<char>, i: int)
    requires
        0 <= i <= fs.len(),
        forall|j: int| 0 <= j < i ==> fs[j].0 != key,
    ensures
        lookup_value(fs, key) == lookup_value(fs.skip(i), key),
    decreases i,
{
    if i == 0 {
        assert(fs.skip(0) =~= fs);
    } else {
        assert(fs[0].0 != key);
        assert forall|j: int| 0 <= j < i - 1 implies fs.skip(1)[j].0 != key by {
            assert(fs.skip(1)[j] == fs[j + 1]);
        }
        lemma_lookup_skip(fs.skip(1), key, i - 1);
        assert(fs.skip(1).skip(i - 1) =~= fs.skip(i));
        assert(lookup_value(fs, key) == lookup_value(fs.skip(1), key));
    }
}

/// Finds the first field with the given key.
pub fn find_value<'a>(p: &'a Payload, key: &str) -> (r: Option<&'a PayloadValue>)
    ensures
        match r {
            Option::Some(v) => lookup_value(payload_model(*p), key@) == Option::Some(
                value_model(*v),
            ),
            Option::None => lookup_value(payload_model(*p), key@) == Option::<ValueModel>::None,
        },
{
    let ghost model = payload_model(*p);
    let key_string = String::from_str(key);
    let mut i: usize = 0;
    while i < p.fields.len()
        invariant
            i <= p.fields@.len(),
            model == payload_model(*p),
            model.len() == p.fields@.len(),
            key_string@ == key@,
            forall|j: int| 0 <= j < i ==> model[j].0 != key@,
        decreases p.fields@.len() - i,
    {
        if p.fields[i].key == key_string {
            proof {
                lemma_lookup_skip(model, key@, i as int);
                assert(model.skip(i as int)[0] == model[i as int]);
            }
            return Option::Some(&p.fields[i].value);
        }
        i = i + 1;
    }
    proof {
        lemma_lookup_skip(model, key@, model.len() as int);
        assert(model.skip(model.len() as int) =~= Seq::<(Seq<char>, ValueModel)>::empty());
    }
    Option::None
}

// ---- cloning, with the model pinned ----

pub fn clone_value(v: &PayloadValue) -> (r: PayloadValue)
    ensures
        value_model(r) == value_model(*v),
{
    match v {
        PayloadValue::Null => PayloadValue::Null,
        PayloadValue::Flag(b) => PayloadValue::Flag(*b),
        PayloadValue::Num(n) => PayloadValue::Num(*n),
        PayloadValue::Text(s) => PayloadValue::Text(clone_string(s)),
        PayloadValue::Items(items) => {
            let copied = clone_vec_string(items);
            proof {
                assert(copied@.map_values(|s: String| s@) =~= items@.map_values(
                    |s: String| s@,
                ));
            }
            PayloadValue::Items(copied)
        },
    }
}

pub fn clone_payload(p: &Payload) -> (r: Payload)
    ensures
        payload_model(r) == payload_model(*p),
{
    let ghost model = payload_model(*p);
    let mut fields: Vec<PayloadField> = Vec::new();
    let mut i: usize = 0;
    while i < p.fields.len()
        invariant
            i <= p.fields@.len(),
            model == payload_model(*p),
            model.len() == p.fields@.len(),
            fields@.len() == i,
            forall|j: int| 0 <= j < i ==> field_model(fields@[j]) == model[j],
        decreases p.fields@.len() - i,
    {
        let f = &p.fields[i];
        let copied = PayloadField { key: clone_string(&f.key), value: clone_value(&f.value) };
        proof {
            assert(model[i as int] == field_model(p.fields@[i as int]));
            assert(field_model(copied) == model[i as int]);
        }
        fields.push(copied);
        i = i + 1;
    }
    let r = Payload { fields };
    proof {
        assert(payload_model(r) =~= model);
    }
    r
}

// ---- building ----

impl Payload {
    pub fn empty() -> (r: Payload)
        ensures
            payload_model(r) == Seq::<(Seq<char>, ValueModel)>::empty(),
    {
        let r = Payload { fields: Vec::new() };
        proof {
            assert(payload_model(r) =~= Seq::<(Seq<char>, ValueModel)>::empty());
        }
        r
    }

    /// Appends one keyed value.
    pub fn push_field(&mut self, key: &str, value: PayloadValue)
        ensures
            payload_model(*final(self)) == payload_model(*old(self)).push(
                (key@, value_model(value)),
            ),
    {
        let ghost before = payload_model(*old(self));
        self.fields.push(PayloadField { key: String::from_str(key), value });
        proof {
            assert(payload_model(*self) =~= before.push((key@, value_model(value))));
        }
    }
}

} // verus!
