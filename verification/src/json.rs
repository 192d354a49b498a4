//! A JSON-like value: the shape of a record's free-form metadata.

use vstd::prelude::*;
use crate::text::text_views;

verus! {

/// `serde_json::Number`, of which Verus sees nothing but the name below.
#[verifier::external_type_specification]
#[verifier::external_body]
pub struct ExNumber(serde_json::Number);

/// The text that serde_json writes for a number that it holds as a
/// double, which is one that was written with a fraction or an exponent, or
/// is too large for 64 bits: none for a number that it holds as an integer.
pub uninterp spec fn decimal_text(number: serde_json::Number) -> Option<Seq<char>>;

/// Calls `serde_json::Number::is_f64`: whether the number is held as a
/// double.
#[verifier::external_body]
pub(crate) fn number_is_decimal(number: &serde_json::Number) -> (r: bool)
    ensures
        r == decimal_text(*number) is Some,
{
    number.is_f64()
}

/// Writes the number with `to_string`, which goes to serde_json's
/// `Display`. Claimed: for a number that is held as a double, this is its
/// text.
#[verifier::external_body]
pub(crate) fn number_text(number: &serde_json::Number) -> (r: String)
    ensures
        decimal_text(*number) matches Some(text) ==> r@ == text,
{
    number.to_string()
}

/// Calls `clone` on a `serde_json::Number`: the same number.
#[verifier::external_body]
pub(crate) fn number_clone(number: &serde_json::Number) -> (r: serde_json::Number)
    ensures
        decimal_text(r) == decimal_text(*number),
{
    number.clone()
}

/// A number that serde_json holds as a double. It is seen by the text that
/// serde_json writes for it, as in `1.5` or `1e-7`.
#[derive(Debug)]
pub struct JsonDecimal {
    number: serde_json::Number,
}

/// A JSON number: an integer, held unsigned or signed, or a number that
/// serde_json holds as a double. The two forms of one integer are the same
/// number; a double is never the same as an integer.
#[derive(Debug)]
pub enum JsonNumber {
    PosInt(u64),
    NegInt(i64),
    Decimal(JsonDecimal),
}

/// What a JSON number stands for: an integer, or the text of a double.
pub ghost enum NumberView {
    Integer(int),
    Decimal(Seq<char>),
}

/// An integer as a JSON value.
pub open spec fn int_view(i: int) -> JsonView {
    JsonView::Number(NumberView::Integer(i))
}

/// Whether the text of a number stands for zero: no digit before the
/// exponent is other than 0.
pub open spec fn is_zero_decimal(text: Seq<char>) -> bool
    decreases text.len(),
{
    if text.len() == 0 {
        true
    } else if text[0] == 'e' || text[0] == 'E' {
        true
    } else if '1' <= text[0] && text[0] <= '9' {
        false
    } else {
        is_zero_decimal(text.drop_first())
    }
}

/// Whether a number is other than zero.
pub open spec fn is_nonzero_number(number: NumberView) -> bool {
    match number {
        NumberView::Integer(i) => i != 0,
        NumberView::Decimal(text) => !is_zero_decimal(text),
    }
}

impl JsonDecimal {
    #[verifier::type_invariant]
    spec fn well_formed(self) -> bool {
        decimal_text(self.number) is Some
    }

    /// The number, where serde_json holds it as a double.
    pub fn new(number: serde_json::Number) -> (r: Option<JsonDecimal>)
        ensures
            match r {
                Some(d) => decimal_text(number) == Some(d@),
                None => decimal_text(number) is None,
            },
    {
        if number_is_decimal(&number) {
            Some(JsonDecimal { number })
        } else {
            None
        }
    }

    /// The number as serde_json holds it.
    pub fn number(&self) -> (r: serde_json::Number)
        ensures
            decimal_text(r) == Some(self@),
    {
        proof {
            use_type_invariant(self);
        }
        number_clone(&self.number)
    }

    /// The text of the number.
    pub fn to_text(&self) -> (r: String)
        ensures
            r@ == self@,
    {
        proof {
            use_type_invariant(self);
        }
        number_text(&self.number)
    }

    /// Whether the number is other than zero.
    pub fn is_nonzero(&self) -> (r: bool)
        ensures
            r == !is_zero_decimal(self@),
    {
        let text = self.to_text();
        let mut zero = true;
        let mut open = true;
        assert(text@.skip(0) =~= text@);
        for c in it: text.as_str().chars()
            invariant
                it.seq() == text@,
                is_zero_decimal(text@) == if open {
                    is_zero_decimal(text@.skip(it.index() as int))
                } else {
                    zero
                },
                open ==> zero,
        {
            if open {
                let ghost rest = text@.skip(it.index() as int);
                assert(rest.len() > 0 && rest[0] == c);
                assert(rest.drop_first() =~= text@.skip(it.index() + 1));
                if c == 'e' || c == 'E' {
                    open = false;
                } else if '1' <= c && c <= '9' {
                    zero = false;
                    open = false;
                }
            }
        }
        assert(text@.skip(text@.len() as int) =~= Seq::<char>::empty());
        !zero
    }
}

impl View for JsonDecimal {
    type V = Seq<char>;

    closed spec fn view(&self) -> Seq<char> {
        decimal_text(self.number).unwrap()
    }
}

impl Clone for JsonDecimal {
    fn clone(&self) -> (r: JsonDecimal)
        ensures
            r@ == self@,
    {
        proof {
            use_type_invariant(self);
        }
        JsonDecimal { number: number_clone(&self.number) }
    }
}

impl View for JsonNumber {
    type V = NumberView;

    open spec fn view(&self) -> NumberView {
        match *self {
            JsonNumber::PosInt(n) => NumberView::Integer(n as int),
            JsonNumber::NegInt(n) => NumberView::Integer(n as int),
            JsonNumber::Decimal(d) => NumberView::Decimal(d@),
        }
    }
}

/// A JSON object: keys with their values, no key twice, in the order in which
/// the keys were first inserted.
#[derive(Debug)]
pub struct JsonObject {
    entries: Vec<(String, Json)>,
}

/// A JSON value.
#[derive(Debug)]
pub enum Json {
    Null,
    Bool(bool),
    Number(JsonNumber),
    String(String),
    Array(Vec<Json>),
    Object(JsonObject),
}

/// What a JSON value stands for: an object is a map, and so has no order.
pub ghost enum JsonView {
    Null,
    Bool(bool),
    Number(NumberView),
    String(Seq<char>),
    Array(Seq<JsonView>),
    Object(Map<Seq<char>, JsonView>),
}

/// The views of the items of an array, in order.
pub open spec fn item_views(items: Seq<Json>) -> Seq<JsonView>
    decreases items, 1int,
{
    if items.len() == 0 {
        Seq::empty()
    } else {
        item_views(items.drop_last()).push(items.last()@)
    }
}

/// The views of the values of an object's entries, in order.
pub open spec fn entry_values(entries: Seq<(String, Json)>) -> Seq<JsonView>
    decreases entries, 1int,
{
    if entries.len() == 0 {
        Seq::empty()
    } else {
        entry_values(entries.drop_last()).push(entries.last().1@)
    }
}

/// `item_views` goes item by item.
pub proof fn lemma_item_views(items: Seq<Json>)
    ensures
        item_views(items).len() == items.len(),
        forall|i: int| 0 <= i < items.len() ==> (#[trigger] item_views(items)[i]) == items[i]@,
    decreases items.len(),
{
    if items.len() > 0 {
        lemma_item_views(items.drop_last());
        assert(item_views(items) == item_views(items.drop_last()).push(items.last()@));
    } else {
        assert(item_views(items) == Seq::<JsonView>::empty());
    }
}

/// `entry_values` goes entry by entry.
pub proof fn lemma_entry_values(entries: Seq<(String, Json)>)
    ensures
        entry_values(entries).len() == entries.len(),
        forall|i: int|
            0 <= i < entries.len() ==> (#[trigger] entry_values(entries)[i]) == entries[i].1@,
    decreases entries.len(),
{
    if entries.len() > 0 {
        lemma_entry_values(entries.drop_last());
        assert(entry_values(entries) == entry_values(entries.drop_last()).push(entries.last().1@));
    } else {
        assert(entry_values(entries) == Seq::<JsonView>::empty());
    }
}

/// The map that takes each key to the value at its place. It is meant for
/// keys of which none occurs twice.
pub open spec fn entries_map(keys: Seq<Seq<char>>, values: Seq<JsonView>) -> Map<
    Seq<char>,
    JsonView,
> {
    Map::new(|k: Seq<char>| keys.contains(k), |k: Seq<char>| values[keys.index_of(k)])
}

/// No key occurs twice.
pub open spec fn distinct_keys(keys: Seq<Seq<char>>) -> bool {
    forall|i: int, j: int| 0 <= i < j < keys.len() ==> keys[i] != keys[j]
}

impl JsonObject {
    #[verifier::type_invariant]
    spec fn well_formed(self) -> bool {
        distinct_keys(self.keys())
    }

    /// The keys, in order.
    pub closed spec fn keys(&self) -> Seq<Seq<char>> {
        Seq::new(self.entries@.len(), |i: int| self.entries@[i].0@)
    }

    /// The values, in the order of their keys.
    pub closed spec fn values(&self) -> Seq<JsonView>
        decreases self, 0int,
    {
        entry_values(self.entries@)
    }

    /// Keys and values go entry by entry.
    proof fn lemma_entries(&self)
        ensures
            self.keys().len() == self.entries@.len(),
            self.values().len() == self.entries@.len(),
            forall|i: int|
                0 <= i < self.entries@.len() ==> (#[trigger] self.keys()[i]) == self.entries@[i].0@,
            forall|i: int|
                0 <= i < self.entries@.len() ==> (#[trigger] self.values()[i])
                    == self.entries@[i].1@,
    {
        lemma_entry_values(self.entries@);
    }

    /// The view holds exactly the keys, each with the value at its place.
    pub proof fn lemma_view(&self)
        requires
            distinct_keys(self.keys()),
        ensures
            self.keys().len() == self.values().len(),
            self@.dom() =~= self.keys().to_set(),
            forall|k: Seq<char>| self@.contains_key(k) <==> self.keys().contains(k),
            forall|i: int|
                0 <= i < self.keys().len() ==> self@.contains_key(#[trigger] self.keys()[i])
                    && self@[self.keys()[i]] == self.values()[i],
    {
        let keys = self.keys();
        self.lemma_entries();
        assert forall|i: int| 0 <= i < keys.len() implies self@.contains_key(#[trigger] keys[i])
            && self@[keys[i]] == self.values()[i] by {
            assert(keys.contains(keys[i]));
            let j = keys.index_of(keys[i]);
            assert(0 <= j < keys.len() && keys[j] == keys[i]);
        }
        assert forall|k: Seq<char>| self@.dom().contains(k) <==> keys.to_set().contains(k) by {
        }
    }

    /// The object without entries.
    pub fn new() -> (r: JsonObject)
        ensures
            r.keys() =~= Seq::<Seq<char>>::empty(),
            r.values() =~= Seq::<JsonView>::empty(),
            r@ =~= Map::<Seq<char>, JsonView>::empty(),
    {
        let r = JsonObject { entries: Vec::new() };
        assert(r.keys() =~= Seq::<Seq<char>>::empty());
        assert(r.values() =~= Seq::<JsonView>::empty());
        r
    }

    /// The number of entries.
    pub fn len(&self) -> (n: usize)
        ensures
            n == self.keys().len(),
            n == self.values().len(),
            distinct_keys(self.keys()),
    {
        proof {
            use_type_invariant(self);
            self.lemma_entries();
        }
        self.entries.len()
    }

    /// The key of the entry at `i`.
    pub fn key(&self, i: usize) -> (k: &String)
        requires
            i < self.keys().len(),
        ensures
            k@ == self.keys()[i as int],
    {
        proof {
            self.lemma_entries();
        }
        &self.entries[i].0
    }

    /// The value of the entry at `i`.
    pub fn value(&self, i: usize) -> (v: &Json)
        requires
            i < self.keys().len(),
        ensures
            v@ == self.values()[i as int],
            decreases_to!(self => v),
    {
        proof {
            self.lemma_entries();
        }
        &self.entries[i].1
    }

    /// Where `key` stands among the keys, if it is one of them.
    pub fn position(&self, key: &str) -> (r: Option<usize>)
        ensures
            match r {
                Some(i) => i < self.keys().len() && self.keys()[i as int] == key@,
                None => !self.keys().contains(key@),
            },
    {
        proof {
            self.lemma_entries();
        }
        let mut i: usize = 0;
        while i < self.entries.len()
            invariant
                i <= self.entries.len(),
                self.keys().len() == self.entries@.len(),
                forall|j: int|
                    0 <= j < self.entries@.len() ==> (#[trigger] self.keys()[j])
                        == self.entries@[j].0@,
                forall|j: int| 0 <= j < i ==> self.keys()[j] != key@,
            decreases self.entries.len() - i,
        {
            if self.entries[i].0.as_str().eq(key) {
                return Some(i);
            }
            i += 1;
        }
        None
    }

    /// The value under `key`, if the object has that key.
    pub fn get(&self, key: &str) -> (r: Option<&Json>)
        ensures
            match r {
                Some(v) => self@.contains_key(key@) && v@ == self@[key@] && decreases_to!(self => v),
                None => !self@.contains_key(key@),
            },
    {
        proof {
            use_type_invariant(self);
            self.lemma_view();
        }
        match self.position(key) {
            Some(i) => Some(self.value(i)),
            None => None,
        }
    }

    /// Puts `value` under `key`: in place of the value that the key had, or
    /// else as a new last entry.
    pub fn insert(&mut self, key: String, value: Json)
        ensures
            final(self)@ =~= old(self)@.insert(key@, value@),
            old(self).keys().contains(key@) ==> final(self).keys() == old(self).keys(),
            !old(self).keys().contains(key@) ==> final(self).keys() == old(self).keys().push(key@),
    {
        proof {
            use_type_invariant(&*self);
            self.lemma_view();
        }
        let ghost before = *self;
        let found = self.position(key.as_str());
        let mut taken = JsonObject::new();
        core::mem::swap(self, &mut taken);
        let mut entries = taken.entries;
        match found {
            Some(i) => {
                entries.set(i, (key, value));
            },
            None => {
                entries.push((key, value));
            },
        }
        let ghost after = JsonObject { entries };
        proof {
            before.lemma_entries();
            after.lemma_entries();
            match found {
                Some(i) => {
                    assert(after.keys() =~= before.keys());
                    assert(after.values() =~= before.values().update(i as int, value@));
                },
                None => {
                    assert(after.keys() =~= before.keys().push(key@));
                    assert(after.values() =~= before.values().push(value@));
                },
            }
            after.lemma_view();
            let target = before@.insert(key@, value@);
            assert forall|k: Seq<char>| after@.contains_key(k) implies target.contains_key(k)
                && after@[k] == target[k] by {
                let j = after.keys().index_of(k);
                assert(after.keys()[j] == k);
                if k != key@ {
                    assert(before.keys()[j] == k);
                }
            }
            assert forall|k: Seq<char>| target.contains_key(k) implies after@.contains_key(k) by {
                if k != key@ {
                    let j = before.keys().index_of(k);
                    assert(0 <= j < before.keys().len() && before.keys()[j] == k);
                    assert(after.keys()[j] == k);
                } else {
                    match found {
                        Some(i) => {
                            assert(after.keys()[i as int] == k);
                        },
                        None => {
                            assert(after.keys()[after.keys().len() - 1] == k);
                        },
                    }
                }
                assert(after.keys().contains(k));
            }
            assert(after@ =~= target);
        }
        *self = JsonObject { entries };
    }
}

impl View for JsonObject {
    type V = Map<Seq<char>, JsonView>;

    open spec fn view(&self) -> Map<Seq<char>, JsonView>
        decreases self, 1int,
    {
        entries_map(self.keys(), self.values())
    }
}

impl View for Json {
    type V = JsonView;

    open spec fn view(&self) -> JsonView
        decreases self, 0int,
    {
        match self {
            Json::Null => JsonView::Null,
            Json::Bool(b) => JsonView::Bool(*b),
            Json::Number(n) => JsonView::Number(n@),
            Json::String(s) => JsonView::String(s@),
            Json::Array(items) => JsonView::Array(item_views(items@)),
            Json::Object(o) => JsonView::Object(o@),
        }
    }
}

impl JsonNumber {
    /// Whether two numbers are the same: the same integer, or doubles
    /// that are written alike.
    pub fn same(&self, other: &JsonNumber) -> (r: bool)
        ensures
            r == (self@ == other@),
    {
        match self {
            JsonNumber::PosInt(a) => match other {
                JsonNumber::PosInt(b) => *a == *b,
                JsonNumber::NegInt(b) => *b >= 0 && *a <= 0x7fff_ffff_ffff_ffff && *a as i64 == *b,
                JsonNumber::Decimal(_) => false,
            },
            JsonNumber::NegInt(a) => match other {
                JsonNumber::PosInt(b) => *a >= 0 && *b <= 0x7fff_ffff_ffff_ffff && *b as i64 == *a,
                JsonNumber::NegInt(b) => *a == *b,
                JsonNumber::Decimal(_) => false,
            },
            JsonNumber::Decimal(a) => match other {
                JsonNumber::Decimal(b) => a.to_text().as_str().eq(b.to_text().as_str()),
                _ => false,
            },
        }
    }

    /// Whether the number is other than zero.
    pub fn is_nonzero(&self) -> (r: bool)
        ensures
            r == is_nonzero_number(self@),
    {
        match self {
            JsonNumber::PosInt(n) => *n != 0,
            JsonNumber::NegInt(n) => *n != 0,
            JsonNumber::Decimal(d) => d.is_nonzero(),
        }
    }
}

impl Clone for JsonNumber {
    fn clone(&self) -> (r: JsonNumber)
        ensures
            r@ == self@,
    {
        match self {
            JsonNumber::PosInt(n) => JsonNumber::PosInt(*n),
            JsonNumber::NegInt(n) => JsonNumber::NegInt(*n),
            JsonNumber::Decimal(d) => JsonNumber::Decimal(d.clone()),
        }
    }
}

impl Clone for JsonObject {
    fn clone(&self) -> (r: JsonObject)
        ensures
            r.keys() == self.keys(),
            r.values() == self.values(),
            r@ == self@,
        decreases self,
    {
        proof {
            use_type_invariant(self);
        }
        let mut entries: Vec<(String, Json)> = Vec::new();
        let mut i: usize = 0;
        while i < self.entries.len()
            invariant
                i <= self.entries.len(),
                entries.len() == i,
                forall|j: int|
                    0 <= j < i ==> (#[trigger] entries[j]).0@ == self.entries[j].0@ && entries[j].1@
                        == self.entries[j].1@,
            decreases self.entries.len() - i,
        {
            let key = self.entries[i].0.clone();
            let value = self.entries[i].1.clone();
            entries.push((key, value));
            i += 1;
        }
        let ghost copy = JsonObject { entries };
        proof {
            copy.lemma_entries();
            self.lemma_entries();
        }
        assert(copy.keys() =~= self.keys());
        assert(copy.values() =~= self.values());
        JsonObject { entries }
    }
}

impl Clone for Json {
    fn clone(&self) -> (r: Json)
        ensures
            r@ == self@,
        decreases self,
    {
        match self {
            Json::Null => Json::Null,
            Json::Bool(b) => Json::Bool(*b),
            Json::Number(n) => Json::Number(n.clone()),
            Json::String(s) => Json::String(s.clone()),
            Json::Array(items) => {
                let mut copy: Vec<Json> = Vec::new();
                let mut i: usize = 0;
                while i < items.len()
                    invariant
                        i <= items.len(),
                        copy.len() == i,
                        decreases_to!(self => items),
                        forall|j: int| 0 <= j < i ==> (#[trigger] copy[j])@ == items[j]@,
                    decreases items.len() - i,
                {
                    proof {
                        assert(decreases_to!(*items => items[i as int]));
                    }
                    copy.push(items[i].clone());
                    i += 1;
                }
                let r = Json::Array(copy);
                proof {
                    lemma_item_views(copy@);
                    lemma_item_views(items@);
                }
                assert(r@->Array_0 =~= self@->Array_0);
                r
            },
            Json::Object(o) => Json::Object(o.clone()),
        }
    }
}

impl Json {
    /// Whether two values are equal: the same kind, and the same contents.
    /// Two objects are equal when they hold the same keys with equal values,
    /// in whatever order.
    pub fn same(&self, other: &Json) -> (r: bool)
        ensures
            r == (self@ == other@),
        decreases self,
    {
        match self {
            Json::Null => matches!(other, Json::Null),
            Json::Bool(a) => match other {
                Json::Bool(b) => *a == *b,
                _ => false,
            },
            Json::Number(a) => match other {
                Json::Number(b) => a.same(b),
                _ => false,
            },
            Json::String(a) => match other {
                Json::String(b) => a.as_str().eq(b.as_str()),
                _ => false,
            },
            Json::Array(a) => match other {
                Json::Array(b) => {
                    proof {
                        lemma_item_views(a@);
                        lemma_item_views(b@);
                    }
                    if a.len() != b.len() {
                        assert(self@->Array_0.len() != other@->Array_0.len());
                        return false;
                    }
                    let mut i: usize = 0;
                    while i < a.len()
                        invariant
                            i <= a.len(),
                            a.len() == b.len(),
                            self == Json::Array(*a),
                            other == Json::Array(*b),
                            forall|j: int| 0 <= j < i ==> (#[trigger] a[j])@ == b[j]@,
                        decreases a.len() - i,
                    {
                        proof {
                            lemma_item_views(a@);
                            lemma_item_views(b@);
                            assert(decreases_to!(*a => a[i as int]));
                        }
                        if !a[i].same(&b[i]) {
                            assert(self@->Array_0[i as int] != other@->Array_0[i as int]);
                            return false;
                        }
                        i += 1;
                    }
                    assert(self@->Array_0 =~= other@->Array_0);
                    true
                },
                _ => false,
            },
            Json::Object(a) => match other {
                Json::Object(b) => {
                    let n = a.len();
                    let m = b.len();
                    let mut i: usize = 0;
                    while i < n
                        invariant
                            i <= n,
                            n == a.keys().len(),
                            n == a.values().len(),
                            self == Json::Object(*a),
                            other == Json::Object(*b),
                            decreases_to!(self => a),
                            distinct_keys(a.keys()),
                            distinct_keys(b.keys()),
                            forall|j: int|
                                0 <= j < i ==> b@.contains_key(#[trigger] a.keys()[j]) && b@[a.keys()[j]]
                                    == a.values()[j],
                        decreases n - i,
                    {
                        proof {
                            a.lemma_view();
                            b.lemma_view();
                        }
                        match b.get(a.key(i).as_str()) {
                            Some(v) => {
                                if !a.value(i).same(v) {
                                    assert(a@[a.keys()[i as int]] != b@[a.keys()[i as int]]);
                                    return false;
                                }
                            },
                            None => {
                                assert(a@.contains_key(a.keys()[i as int]));
                                return false;
                            },
                        }
                        i += 1;
                    }
                    let mut k: usize = 0;
                    while k < m
                        invariant
                            k <= m,
                            m == b.keys().len(),
                            self == Json::Object(*a),
                            other == Json::Object(*b),
                            distinct_keys(a.keys()),
                            distinct_keys(b.keys()),
                            forall|j: int| 0 <= j < k ==> a@.contains_key(#[trigger] b.keys()[j]),
                        decreases m - k,
                    {
                        proof {
                            a.lemma_view();
                            b.lemma_view();
                        }
                        if a.get(b.key(k).as_str()).is_none() {
                            assert(b@.contains_key(b.keys()[k as int]));
                            return false;
                        }
                        k += 1;
                    }
                    proof {
                        a.lemma_view();
                        b.lemma_view();
                        assert forall|key: Seq<char>| a@.contains_key(key) implies b@.contains_key(
                            key,
                        ) && a@[key] == b@[key] by {
                            let j = a.keys().index_of(key);
                            assert(a.keys()[j] == key);
                        }
                        assert forall|key: Seq<char>| b@.contains_key(key) implies a@.contains_key(
                            key,
                        ) by {
                            let j = b.keys().index_of(key);
                            assert(b.keys()[j] == key);
                        }
                        assert(a@ =~= b@);
                    }
                    true
                },
                _ => false,
            },
        }
    }
}

/// An optional text as a JSON value: the text, or null.
pub open spec fn text_json(text: Option<Seq<char>>) -> JsonView {
    match text {
        Some(t) => JsonView::String(t),
        None => JsonView::Null,
    }
}

/// An optional flag as a JSON value: the boolean, or null.
pub open spec fn flag_json(flag: Option<bool>) -> JsonView {
    match flag {
        Some(b) => JsonView::Bool(b),
        None => JsonView::Null,
    }
}

/// An optional integer as a JSON value: the number, or null.
pub open spec fn int_json(n: Option<int>) -> JsonView {
    match n {
        Some(i) => int_view(i),
        None => JsonView::Null,
    }
}

/// Some texts as JSON values, in order.
pub open spec fn texts_json(texts: Seq<Seq<char>>) -> Seq<JsonView> {
    texts.map_values(|t: Seq<char>| JsonView::String(t))
}

/// The view of an optional text.
pub open spec fn optional_text(text: Option<String>) -> Option<Seq<char>> {
    match text {
        Some(t) => Some(t@),
        None => None,
    }
}

impl Json {
    /// The text as a JSON value.
    pub fn text(text: &str) -> (r: Json)
        ensures
            r@ == JsonView::String(text@),
    {
        Json::String(text.to_owned())
    }

    /// An optional text as a JSON value.
    pub fn optional_text(text: &Option<String>) -> (r: Json)
        ensures
            r@ == text_json(optional_text(*text)),
    {
        match text {
            Some(t) => Json::String(t.clone()),
            None => Json::Null,
        }
    }

    /// An optional flag as a JSON value.
    pub fn optional_flag(flag: Option<bool>) -> (r: Json)
        ensures
            r@ == flag_json(flag),
    {
        match flag {
            Some(b) => Json::Bool(b),
            None => Json::Null,
        }
    }

    /// An unsigned integer as a JSON value.
    pub fn unsigned(n: u64) -> (r: Json)
        ensures
            r@ == int_view(n as int),
    {
        Json::Number(JsonNumber::PosInt(n))
    }

    /// A signed integer as a JSON value.
    pub fn signed(n: i64) -> (r: Json)
        ensures
            r@ == int_view(n as int),
    {
        if n >= 0 {
            Json::Number(JsonNumber::PosInt(n as u64))
        } else {
            Json::Number(JsonNumber::NegInt(n))
        }
    }

    /// An optional 32-bit integer as a JSON value.
    pub fn optional_int(n: Option<i32>) -> (r: Json)
        ensures
            r@ == int_json(
                match n {
                    Some(i) => Some(i as int),
                    None => None,
                },
            ),
    {
        match n {
            Some(i) => Json::signed(i as i64),
            None => Json::Null,
        }
    }

    /// Some texts as a JSON array.
    pub fn texts(texts: &Vec<String>) -> (r: Json)
        ensures
            r@ == JsonView::Array(texts_json(text_views(texts@))),
    {
        let mut items: Vec<Json> = Vec::new();
        let mut i: usize = 0;
        while i < texts.len()
            invariant
                i <= texts.len(),
                items.len() == i,
                forall|j: int| 0 <= j < i ==> (#[trigger] items[j])@ == JsonView::String(texts[j]@),
            decreases texts.len() - i,
        {
            items.push(Json::String(texts[i].clone()));
            i += 1;
        }
        proof {
            lemma_item_views(items@);
            assert(item_views(items@) =~= texts_json(text_views(texts@)));
        }
        Json::Array(items)
    }
}

/// The text under a key of a JSON value: none where the value is no object,
/// has no such key, or holds something else than a text there.
pub open spec fn text_under(value: JsonView, key: Seq<char>) -> Option<Seq<char>> {
    match value {
        JsonView::Object(entries) => if entries.contains_key(key) {
            match entries[key] {
                JsonView::String(text) => Some(text),
                _ => None,
            }
        } else {
            None
        },
        _ => None,
    }
}

} // verus!
