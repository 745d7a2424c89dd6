//! JSON values: what events look like to rules.
//!
//! A number with a fraction is held by its rank: the bits of the double, where it
//! is not negative, and else the negated bits of its absolute value. Doubles are
//! ordered as their ranks are.
use vstd::prelude::*;

use crate::text::{round_to, rounded, same};
use crate::words::{index_number, parse_index};

verus! {

/// A JSON value.
pub enum JsonValue {
    Null,
    Bool(bool),
    /// A whole number that is not negative.
    PosInt(u64),
    /// A whole number below zero.
    NegInt(i64),
    /// Any other number, by its rank.
    Float(i64),
    Text(String),
    Array(Vec<JsonValue>),
    /// Of several entries under one name the last counts.
    Object(Vec<(String, JsonValue)>),
}

/// What a JSON value is.
#[verifier::ext_equal]
pub enum JsonModel {
    Null,
    Bool(bool),
    PosInt(u64),
    NegInt(i64),
    Float(i64),
    Text(Seq<char>),
    Array(Seq<JsonModel>),
    Object(Map<Seq<char>, JsonModel>),
}

/// What a JSON value is.
pub open spec fn json_view(value: JsonValue) -> JsonModel
    decreases value,
{
    match value {
        JsonValue::Null => JsonModel::Null,
        JsonValue::Bool(b) => JsonModel::Bool(b),
        JsonValue::PosInt(n) => JsonModel::PosInt(n),
        JsonValue::NegInt(n) => JsonModel::NegInt(n),
        JsonValue::Float(n) => JsonModel::Float(n),
        JsonValue::Text(s) => JsonModel::Text(s@),
        JsonValue::Array(v) => JsonModel::Array(items_view(v@)),
        JsonValue::Object(v) => JsonModel::Object(fields_view(v@)),
    }
}

/// What the items of an array are.
pub open spec fn items_view(items: Seq<JsonValue>) -> Seq<JsonModel>
    decreases items,
{
    if items.len() == 0 {
        Seq::empty()
    } else {
        items_view(items.drop_last()).push(json_view(items.last()))
    }
}

/// What the fields of an object are.
pub open spec fn fields_view(fields: Seq<(String, JsonValue)>) -> Map<Seq<char>, JsonModel>
    decreases fields,
{
    if fields.len() == 0 {
        Map::empty()
    } else {
        fields_view(fields.drop_last()).insert(fields.last().0@, json_view(fields.last().1))
    }
}

impl View for JsonValue {
    type V = JsonModel;

    open spec fn view(&self) -> JsonModel {
        json_view(*self)
    }
}

/// What a value is, if there is one.
pub open spec fn opt_json(value: Option<&JsonValue>) -> Option<JsonModel> {
    match value {
        Some(v) => Some(v@),
        None => None,
    }
}

/// Each item is viewed on its own.
pub proof fn lemma_items(items: Seq<JsonValue>)
    ensures
        items_view(items).len() == items.len(),
        forall|i: int| 0 <= i < items.len() ==> #[trigger] items_view(items)[i] == items[i]@,
    decreases items.len(),
{
    if items.len() > 0 {
        let rest = items.drop_last();
        lemma_items(rest);
        assert forall|i: int| 0 <= i < items.len() implies #[trigger] items_view(items)[i]
            == items[i]@ by {
            if i < rest.len() {
                assert(items_view(rest)[i] == rest[i]@);
            }
        }
    }
}

/// A field counts where no later one has its name.
proof fn lemma_field(fields: Seq<(String, JsonValue)>, name: Seq<char>, i: int)
    requires
        0 <= i < fields.len(),
        fields[i].0@ == name,
        forall|j: int| i < j < fields.len() ==> (#[trigger] fields[j]).0@ != name,
    ensures
        fields_view(fields).contains_key(name),
        fields_view(fields)[name] == fields[i].1@,
    decreases fields.len(),
{
    let rest = fields.drop_last();
    if i < rest.len() {
        assert(fields[fields.len() - 1].0@ != name);
        assert forall|j: int| i < j < rest.len() implies (#[trigger] rest[j]).0@ != name by {
            assert(rest[j] == fields[j]);
        }
        lemma_field(rest, name, i);
    }
}

/// A name that no field has is not in the object.
proof fn lemma_no_field(fields: Seq<(String, JsonValue)>, name: Seq<char>)
    requires
        forall|j: int| 0 <= j < fields.len() ==> (#[trigger] fields[j]).0@ != name,
    ensures
        !fields_view(fields).contains_key(name),
    decreases fields.len(),
{
    if fields.len() > 0 {
        let rest = fields.drop_last();
        assert(fields[fields.len() - 1].0@ != name);
        assert forall|j: int| 0 <= j < rest.len() implies (#[trigger] rest[j]).0@ != name by {
            assert(rest[j] == fields[j]);
        }
        lemma_no_field(rest, name);
    }
}

/// The names in an object are those of its fields.
proof fn lemma_names(fields: Seq<(String, JsonValue)>, name: Seq<char>)
    requires
        fields_view(fields).contains_key(name),
    ensures
        exists|i: int| 0 <= i < fields.len() && (#[trigger] fields[i]).0@ == name,
{
    if forall|i: int| 0 <= i < fields.len() ==> (#[trigger] fields[i]).0@ != name {
        lemma_no_field(fields, name);
    }
}

fn find_field(fields: &Vec<(String, JsonValue)>, name: &str) -> (r: Option<usize>)
    ensures
        match r {
            Some(i) => i < fields@.len() && fields_view(fields@).contains_key(name@)
                && fields_view(fields@)[name@] == fields@[i as int].1@,
            None => !fields_view(fields@).contains_key(name@),
        },
{
    let mut i: usize = fields.len();
    while i > 0
        invariant
            i <= fields@.len(),
            forall|j: int| i <= j < fields@.len() ==> (#[trigger] fields@[j]).0@ != name@,
        decreases i,
    {
        i -= 1;
        if same(fields[i].0.as_str(), name) {
            proof {
                lemma_field(fields@, name@, i as int);
            }
            return Some(i);
        }
    }
    proof {
        lemma_no_field(fields@, name@);
    }
    None
}

impl JsonValue {
    /// Whether two values are the same.
    pub fn equals(&self, other: &JsonValue) -> (r: bool)
        ensures
            r == (self@ == other@),
        decreases self,
    {
        match (self, other) {
            (JsonValue::Null, JsonValue::Null) => true,
            (JsonValue::Bool(a), JsonValue::Bool(b)) => *a == *b,
            (JsonValue::PosInt(a), JsonValue::PosInt(b)) => *a == *b,
            (JsonValue::NegInt(a), JsonValue::NegInt(b)) => *a == *b,
            (JsonValue::Float(a), JsonValue::Float(b)) => *a == *b,
            (JsonValue::Text(a), JsonValue::Text(b)) => same(a.as_str(), b.as_str()),
            (JsonValue::Array(a), JsonValue::Array(b)) => {
                proof {
                    lemma_items(a@);
                    lemma_items(b@);
                }
                if a.len() != b.len() {
                    return false;
                }
                let mut i: usize = 0;
                while i < a.len()
                    invariant
                        i <= a@.len(),
                        a@.len() == b@.len(),
                        *self == JsonValue::Array(*a),
                        *other == JsonValue::Array(*b),
                        items_view(a@).len() == a@.len(),
                        items_view(b@).len() == b@.len(),
                        forall|j: int|
                            0 <= j < a@.len() ==> #[trigger] items_view(a@)[j] == a@[j]@,
                        forall|j: int|
                            0 <= j < b@.len() ==> #[trigger] items_view(b@)[j] == b@[j]@,
                        forall|j: int|
                            0 <= j < i ==> #[trigger] items_view(a@)[j] == items_view(b@)[j],
                    decreases a@.len() - i,
                {
                    assert(decreases_to!(*self => a@[i as int]));
                    if !a[i].equals(&b[i]) {
                        assert(items_view(a@)[i as int] == a@[i as int]@);
                        assert(items_view(b@)[i as int] == b@[i as int]@);
                        assert(self@->Array_0 != other@->Array_0);
                        return false;
                    }
                    i += 1;
                }
                assert(items_view(a@) =~= items_view(b@));
                true
            },
            (JsonValue::Object(a), JsonValue::Object(b)) => {
                let ghost x = fields_view(a@);
                let ghost y = fields_view(b@);
                let mut i: usize = 0;
                while i < a.len()
                    invariant
                        i <= a@.len(),
                        *self == JsonValue::Object(*a),
                        *other == JsonValue::Object(*b),
                        x == fields_view(a@),
                        y == fields_view(b@),
                        forall|j: int|
                            0 <= j < i ==> y.contains_key((#[trigger] a@[j]).0@) && x[a@[j].0@]
                                == y[a@[j].0@],
                    decreases a@.len() - i,
                {
                    let name = a[i].0.as_str();
                    proof {
                        lemma_known(a@, i as int);
                    }
                    match (find_field(a, name), find_field(b, name)) {
                        (Some(m), Some(n)) => {
                            assert(decreases_to!(*self => self->Object_0));
                    assert(self->Object_0 == *a);
                            assert(decreases_to!(*a => a@));
                            assert(decreases_to!(a@ => a@[m as int]));
                            assert(decreases_to!(a@[m as int] => a@[m as int].1));
                            if !a[m].1.equals(&b[n].1) {
                                assert(x[name@] != y[name@]);
                                return false;
                            }
                        },
                        _ => {
                            assert(x.contains_key(name@));
                            assert(!y.contains_key(name@));
                            return false;
                        },
                    }
                    i += 1;
                }
                let mut k: usize = 0;
                while k < b.len()
                    invariant
                        k <= b@.len(),
                        *self == JsonValue::Object(*a),
                        *other == JsonValue::Object(*b),
                        x == fields_view(a@),
                        y == fields_view(b@),
                        forall|j: int| 0 <= j < k ==> x.contains_key((#[trigger] b@[j]).0@),
                    decreases b@.len() - k,
                {
                    let name = b[k].0.as_str();
                    proof {
                        lemma_known(b@, k as int);
                    }
                    if find_field(a, name).is_none() {
                        assert(y.contains_key(name@));
                        assert(!x.contains_key(name@));
                        return false;
                    }
                    k += 1;
                }
                assert(x =~= y) by {
                    assert forall|name: Seq<char>| x.contains_key(name) implies y.contains_key(
                        name,
                    ) && #[trigger] x[name] == y[name] by {
                        lemma_names(a@, name);
                        let j = choose|j: int| 0 <= j < a@.len() && (#[trigger] a@[j]).0@ == name;
                        assert(y.contains_key(a@[j].0@) && x[a@[j].0@] == y[a@[j].0@]);
                    }
                    assert forall|name: Seq<char>| x.contains_key(name) implies y.contains_key(
                        name,
                    ) by {
                        lemma_names(a@, name);
                        let j = choose|j: int| 0 <= j < a@.len() && (#[trigger] a@[j]).0@ == name;
                        assert(y.contains_key(a@[j].0@));
                    }
                    assert forall|name: Seq<char>| y.contains_key(name) implies x.contains_key(
                        name,
                    ) by {
                        lemma_names(b@, name);
                        let j = choose|j: int| 0 <= j < b@.len() && (#[trigger] b@[j]).0@ == name;
                        assert(x.contains_key(b@[j].0@));
                    }
                }
                true
            },
            _ => false,
        }
    }
}

/// The name of a field is in the object.
proof fn lemma_known(fields: Seq<(String, JsonValue)>, i: int)
    requires
        0 <= i < fields.len(),
    ensures
        fields_view(fields).contains_key(fields[i].0@),
    decreases fields.len(),
{
    let rest = fields.drop_last();
    if i < rest.len() {
        lemma_known(rest, i);
        assert(rest[i] == fields[i]);
    }
}

impl Clone for JsonValue {
    fn clone(&self) -> (r: JsonValue)
        ensures
            r@ == self@,
        decreases self,
    {
        match self {
            JsonValue::Null => JsonValue::Null,
            JsonValue::Bool(b) => JsonValue::Bool(*b),
            JsonValue::PosInt(n) => JsonValue::PosInt(*n),
            JsonValue::NegInt(n) => JsonValue::NegInt(*n),
            JsonValue::Float(n) => JsonValue::Float(*n),
            JsonValue::Text(s) => JsonValue::Text(s.clone()),
            JsonValue::Array(v) => {
                let mut copy: Vec<JsonValue> = Vec::new();
                let mut i: usize = 0;
                while i < v.len()
                    invariant
                        i <= v@.len(),
                        *self == JsonValue::Array(*v),
                        items_view(copy@) == items_view(v@.take(i as int)),
                    decreases v@.len() - i,
                {
                    assert(decreases_to!(*self => self->Array_0));
                    assert(self->Array_0 == *v);
                    assert(decreases_to!(*v => v@));
                    assert(decreases_to!(v@ => v@[i as int]));
                    let ghost before = copy@;
                    copy.push(v[i].clone());
                    assert(copy@.drop_last() =~= before);
                    assert(v@.take(i + 1).drop_last() =~= v@.take(i as int));
                    i += 1;
                }
                assert(v@.take(i as int) =~= v@);
                JsonValue::Array(copy)
            },
            JsonValue::Object(v) => {
                let mut copy: Vec<(String, JsonValue)> = Vec::new();
                let mut i: usize = 0;
                while i < v.len()
                    invariant
                        i <= v@.len(),
                        *self == JsonValue::Object(*v),
                        fields_view(copy@) == fields_view(v@.take(i as int)),
                    decreases v@.len() - i,
                {
                    assert(decreases_to!(*self => self->Object_0));
                    assert(self->Object_0 == *v);
                    assert(decreases_to!(*v => v@));
                    assert(decreases_to!(v@ => v@[i as int]));
                    assert(decreases_to!(v@[i as int] => v@[i as int].1));
                    let ghost before = copy@;
                    copy.push((v[i].0.clone(), v[i].1.clone()));
                    assert(copy@.drop_last() =~= before);
                    assert(v@.take(i + 1).drop_last() =~= v@.take(i as int));
                    i += 1;
                }
                assert(v@.take(i as int) =~= v@);
                JsonValue::Object(copy)
            },
        }
    }
}

/// The value that a path of names and positions leads to, from its part `n` on.
pub open spec fn value_at(value: JsonModel, parts: Seq<Seq<char>>, n: nat) -> Option<JsonModel>
    decreases parts.len() - n,
    when n <= parts.len()
{
    if n == parts.len() {
        Some(value)
    } else {
        match value {
            JsonModel::Object(fields) => if fields.contains_key(parts[n as int]) {
                value_at(fields[parts[n as int]], parts, n + 1)
            } else {
                None
            },
            JsonModel::Array(items) => match index_number(parts[n as int]) {
                Some(i) => if i < items.len() {
                    value_at(items[i as int], parts, n + 1)
                } else {
                    None
                },
                None => None,
            },
            _ => None,
        }
    }
}

impl JsonValue {
    /// The value that a path of names and positions leads to.
    pub fn at<'a>(&'a self, parts: &Vec<String>) -> (r: Option<&'a JsonValue>)
        ensures
            opt_json(r) == value_at(self@, crate::text::texts(parts@), 0),
    {
        let ghost path = crate::text::texts(parts@);
        let mut current = self;
        let mut n: usize = 0;
        while n < parts.len()
            invariant
                n <= parts@.len(),
                path == crate::text::texts(parts@),
                value_at(current@, path, n as nat) == value_at(self@, path, 0),
            decreases parts@.len() - n,
        {
            let part = parts[n].as_str();
            assert(path[n as int] == part@);
            match current {
                JsonValue::Object(fields) => {
                    match find_field(fields, part) {
                        Some(i) => {
                            current = &fields[i].1;
                        },
                        None => {
                            return None;
                        },
                    }
                },
                JsonValue::Array(items) => {
                    proof {
                        lemma_items(items@);
                    }
                    match parse_index(part) {
                        Some(i) => {
                            if i >= items.len() {
                                return None;
                            }
                            assert(items_view(items@)[i as int] == items@[i as int]@);
                            current = &items[i];
                        },
                        None => {
                            return None;
                        },
                    }
                },
                _ => {
                    return None;
                },
            }
            n += 1;
        }
        Some(current)
    }

    /// The text of a value that is one.
    pub fn as_text(&self) -> (r: Option<&str>)
        ensures
            match r {
                Some(s) => self@ == JsonModel::Text(s@),
                None => !(self@ is Text),
            },
    {
        match self {
            JsonValue::Text(s) => Some(s.as_str()),
            _ => None,
        }
    }
}

/// Two to the power of `n`.
pub open spec fn two_to(n: nat) -> nat
    decreases n,
{
    if n == 0 {
        1
    } else {
        2 * two_to((n - 1) as nat)
    }
}

/// The greatest power of two that a number above zero holds.
pub open spec fn log2(n: nat) -> nat
    decreases n,
{
    if n <= 1 {
        0
    } else {
        log2(n / 2) + 1
    }
}

/// What stands behind the exponent.
pub open spec fn significand(n: nat) -> nat {
    let e = log2(n);
    if e <= 52 {
        n * two_to((52 - e) as nat)
    } else {
        rounded(n, two_to((e - 52) as nat))
    }
}

/// The rank of the double that is nearest to a whole number: the exponent, and
/// behind it the fifty-two bits that follow the first one. Halfway between two
/// doubles, the even one is taken.
pub open spec fn whole_rank(n: nat) -> int {
    if n == 0 {
        0
    } else {
        (log2(n) + 1022) * 0x10_0000_0000_0000 + significand(n) as int
    }
}

/// The rank of a number.
pub open spec fn rank(value: JsonModel) -> Option<int> {
    match value {
        JsonModel::PosInt(n) => Some(whole_rank(n as nat)),
        JsonModel::NegInt(n) => Some(
            if n < 0 {
                -whole_rank((-n) as nat)
            } else {
                whole_rank(n as nat)
            },
        ),
        JsonModel::Float(rank) => Some(rank as int),
        _ => None,
    }
}

proof fn lemma_log2(n: nat)
    requires
        n > 0,
    ensures
        two_to(log2(n)) <= n < 2 * two_to(log2(n)),
    decreases n,
{
    if n > 1 {
        lemma_log2(n / 2);
    }
}

proof fn lemma_two_to(a: nat, b: nat)
    ensures
        two_to(a + b) == two_to(a) * two_to(b),
        a <= b ==> two_to(a) <= two_to(b),
        two_to(a) >= 1,
    decreases a,
{
    if a == 0 {
        assert(1 * two_to(b) == two_to(b));
        lemma_positive(b);
    } else {
        lemma_two_to((a - 1) as nat, b);
        let x = two_to((a - 1) as nat);
        let y = two_to(b);
        assert((2 * x) * y == 2 * (x * y)) by (nonlinear_arith);
        if a <= b {
            lemma_two_to((a - 1) as nat, (b - 1) as nat);
        }
    }
}

proof fn lemma_positive(n: nat)
    ensures
        two_to(n) >= 1,
    decreases n,
{
    if n > 0 {
        lemma_positive((n - 1) as nat);
    }
}

proof fn lemma_small_powers()
    ensures
        two_to(11) == 0x800,
        two_to(12) == 0x1000,
        two_to(52) == 0x10_0000_0000_0000,
        two_to(53) == 0x20_0000_0000_0000,
        two_to(64) == 0x1_0000_0000_0000_0000,
{
    reveal_with_fuel(two_to, 65);
}

fn power_of_two(n: u32) -> (r: u64)
    requires
        n <= 52,
    ensures
        r == two_to(n as nat),
{
    let mut r: u64 = 1;
    let mut i: u32 = 0;
    while i < n
        invariant
            i <= n <= 52,
            r == two_to(i as nat),
        decreases n - i,
    {
        proof {
            lemma_two_to((i + 1) as nat, 52);
            lemma_small_powers();
        }
        r = r * 2;
        i += 1;
    }
    r
}

fn find_log2(n: u64) -> (e: u32)
    requires
        n > 0,
    ensures
        e == log2(n as nat),
        e <= 63,
{
    let mut e: u32 = 0;
    let mut left: u64 = n;
    proof {
        lemma_log2(n as nat);
        lemma_small_powers();
        if log2(n as nat) >= 64 {
            lemma_two_to(64, log2(n as nat));
        }
    }
    while left > 1
        invariant
            left > 0,
            log2(n as nat) <= 63,
            e + log2(left as nat) == log2(n as nat),
        decreases left,
    {
        left = left / 2;
        e += 1;
    }
    e
}

/// The rank of the double that is nearest to a whole number.
pub fn rank_of_whole(n: u64) -> (r: i64)
    ensures
        r == whole_rank(n as nat),
        r >= 0,
{
    if n == 0 {
        return 0;
    }
    let e: u32 = find_log2(n);
    proof {
        lemma_log2(n as nat);
        lemma_small_powers();
    }
    let significand: u64 = if e <= 52 {
        let unit: u64 = power_of_two(52 - e);
        proof {
            lemma_two_to(e as nat, (52 - e) as nat);
            let x = two_to(e as nat) as int;
            let u = unit as int;
            let m = n as int;
            assert(m * u <= 2 * (x * u)) by (nonlinear_arith)
                requires
                    m <= 2 * x,
                    u >= 0,
            ;
            assert(m * u >= 0) by (nonlinear_arith)
                requires
                    m >= 0,
                    u >= 0,
            ;
        }
        n * unit
    } else {
        let unit: u64 = power_of_two(e - 52);
        proof {
            lemma_two_to((e - 52) as nat, 11);
            lemma_two_to(1, (e - 52) as nat);
            lemma_two_to((e - 52) as nat, 52);
            lemma_quotient(n as nat, unit as nat);
        }
        round_to(n, unit)
    };
    (e as i64 + 1022) * 0x10_0000_0000_0000 + significand as i64
}

/// A number below twice a power of two, over as much of it as leaves fifty-three
/// bits, has at most fifty-three bits.
proof fn lemma_quotient(n: nat, unit: nat)
    requires
        unit > 0,
        n < unit * 0x20_0000_0000_0000,
    ensures
        rounded(n, unit) <= 0x20_0000_0000_0000,
{
    assert(n / unit < 0x20_0000_0000_0000) by (nonlinear_arith)
        requires
            unit > 0,
            n < unit * 0x20_0000_0000_0000,
    ;
}

impl JsonValue {
    /// The rank of a number.
    pub fn number_rank(&self) -> (r: Option<i64>)
        ensures
            match r {
                Some(n) => rank(self@) == Some(n as int),
                None => rank(self@) is None,
            },
    {
        match self {
            JsonValue::PosInt(n) => Some(rank_of_whole(*n)),
            JsonValue::NegInt(n) => Some(
                if *n < 0 {
                    let size: u64 = (-(*n + 1)) as u64 + 1;
                    -rank_of_whole(size)
                } else {
                    rank_of_whole(*n as u64)
                },
            ),
            JsonValue::Float(rank) => Some(*rank),
            _ => None,
        }
    }
}

/// A greater whole number has no lower rank.
pub proof fn law_rank_follows_size(m: nat, n: nat)
    requires
        m <= n,
    ensures
        whole_rank(m) <= whole_rank(n),
{
    if m > 0 {
        lemma_significand(m);
        lemma_significand(n);
        let a = log2(m);
        let b = log2(n);
        lemma_log2(m);
        lemma_log2(n);
        if a > b {
            lemma_two_to(b + 1, a);
        } else if a == b {
            lemma_same_exponent(m, n);
        }
    } else if n > 0 {
        lemma_significand(n);
    }
}

proof fn lemma_significand(n: nat)
    requires
        n > 0,
    ensures
        whole_rank(n) == (log2(n) + 1022) * 0x10_0000_0000_0000 + significand(n),
        0x10_0000_0000_0000 <= significand(n) <= 0x20_0000_0000_0000,
{
    let e = log2(n);
    lemma_log2(n);
    lemma_small_powers();
    if e <= 52 {
        let unit = two_to((52 - e) as nat);
        let x = two_to(e);
        lemma_two_to(e, (52 - e) as nat);
        lemma_positive((52 - e) as nat);
        assert(x * unit <= n * unit <= 2 * (x * unit)) by (nonlinear_arith)
            requires
                x <= n <= 2 * x,
                unit >= 1,
        ;
    } else {
        let unit = two_to((e - 52) as nat);
        lemma_two_to((e - 52) as nat, 52);
        lemma_positive((e - 52) as nat);
        lemma_quotient(n, unit);
        assert(n / unit >= 0x10_0000_0000_0000) by (nonlinear_arith)
            requires
                unit >= 1,
                n >= unit * 0x10_0000_0000_0000,
        ;
    }
}

proof fn lemma_same_exponent(m: nat, n: nat)
    requires
        0 < m <= n,
        log2(m) == log2(n),
    ensures
        significand(m) <= significand(n),
{
    let e = log2(n);
    if e <= 52 {
        let unit = two_to((52 - e) as nat);
        assert(m * unit <= n * unit) by (nonlinear_arith)
            requires
                m <= n,
        ;
    } else {
        let unit = two_to((e - 52) as nat);
        lemma_positive((e - 52) as nat);
        lemma_rounded_grows(m, n, unit);
    }
}

proof fn lemma_rounded_grows(m: nat, n: nat, unit: nat)
    requires
        unit > 0,
        m <= n,
    ensures
        rounded(m, unit) <= rounded(n, unit),
{
    let a = m / unit;
    let b = n / unit;
    assert(m == unit * a + m % unit && n == unit * b + n % unit) by (nonlinear_arith)
        requires
            unit > 0,
            a == m / unit,
            b == n / unit,
    ;
    assert(a <= b) by (nonlinear_arith)
        requires
            unit > 0,
            m <= n,
            a == m / unit,
            b == n / unit,
    ;
}

proof fn lemma_path_shift(value: JsonModel, front: Seq<Seq<char>>, parts: Seq<Seq<char>>, n: nat)
    requires
        n <= parts.len(),
    ensures
        value_at(value, front + parts, front.len() + n) == value_at(value, parts, n),
    decreases parts.len() - n,
{
    if n < parts.len() {
        assert((front + parts)[(front.len() + n) as int] == parts[n as int]);
        match value {
            JsonModel::Object(fields) => {
                if fields.contains_key(parts[n as int]) {
                    lemma_path_shift(fields[parts[n as int]], front, parts, n + 1);
                }
            },
            JsonModel::Array(items) => {
                if let Some(i) = index_number(parts[n as int]) {
                    if i < items.len() {
                        lemma_path_shift(items[i as int], front, parts, n + 1);
                    }
                }
            },
            _ => {},
        }
    }
}

/// A path leads into an object by the name of a field, into a list by the number of an
/// item, counted from zero, and on from there; nowhere else, and no further than there is
/// a field or an item. Without parts it leads to the value itself.
pub proof fn law_paths_lead_into_values(
    fields: Map<Seq<char>, JsonModel>,
    items: Seq<JsonModel>,
    text: Seq<char>,
    name: Seq<char>,
    i: usize,
    rest: Seq<Seq<char>>,
)
    ensures
        value_at(JsonModel::Text(text), Seq::empty(), 0) == Some(JsonModel::Text(text)),
        value_at(JsonModel::Text(text), seq![name] + rest, 0) is None,
        fields.contains_key(name) ==> value_at(JsonModel::Object(fields), seq![name] + rest, 0)
            == value_at(fields[name], rest, 0),
        !fields.contains_key(name) ==> value_at(
            JsonModel::Object(fields),
            seq![name] + rest,
            0,
        ) is None,
        i < items.len() ==> value_at(
            JsonModel::Array(items),
            seq![crate::text::decimal(i as nat)] + rest,
            0,
        ) == value_at(items[i as int], rest, 0),
        i >= items.len() ==> value_at(
            JsonModel::Array(items),
            seq![crate::text::decimal(i as nat)] + rest,
            0,
        ) is None,
{
    let by_name = seq![name] + rest;
    let by_number = seq![crate::text::decimal(i as nat)] + rest;
    assert(by_name[0] == name);
    assert(by_number[0] == crate::text::decimal(i as nat));
    crate::words::law_numbers_are_read_back(i);
    if fields.contains_key(name) {
        lemma_path_shift(fields[name], seq![name], rest, 0);
    }
    if i < items.len() {
        lemma_path_shift(items[i as int], seq![crate::text::decimal(i as nat)], rest, 0);
    }
}

} // verus!
