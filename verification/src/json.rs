//! A JSON document model, its view, and the typed reads that the protocol
//! codecs make of it.

use vstd::prelude::*;
use crate::text::{str_eq, chars_of, push_char};

verus! {

/// A JSON value. Numbers keep their JSON text; object members keep their
/// order.
#[derive(Debug)]
pub enum Json {
    Null,
    Bool(bool),
    Number(String),
    Str(String),
    Array(Vec<Json>),
    Object(Vec<(String, Json)>),
}

/// The mathematical view of a [`Json`] value.
#[verifier::ext_equal]
pub enum JsonV {
    Null,
    Bool(bool),
    Number(Seq<char>),
    Str(Seq<char>),
    Array(Seq<JsonV>),
    Object(Seq<MemberV>),
}

/// The view of one object member.
#[verifier::ext_equal]
pub struct MemberV {
    pub key: Seq<char>,
    pub value: JsonV,
}

impl View for Json {
    type V = JsonV;

    open spec fn view(&self) -> JsonV
        decreases self,
    {
        match self {
            Json::Null => JsonV::Null,
            Json::Bool(b) => JsonV::Bool(*b),
            Json::Number(t) => JsonV::Number(t@),
            Json::Str(s) => JsonV::Str(s@),
            Json::Array(a) => JsonV::Array(
                Seq::new(a@.len(), |i: int| if 0 <= i < a@.len() { a@[i].view() } else { JsonV::Null }),
            ),
            Json::Object(o) => JsonV::Object(
                Seq::new(
                    o@.len(),
                    |i: int|
                        if 0 <= i < o@.len() {
                            MemberV { key: o@[i].0@, value: o@[i].1.view() }
                        } else {
                            MemberV { key: Seq::empty(), value: JsonV::Null }
                        },
                ),
            ),
        }
    }
}

impl DeepView for Json {
    type V = JsonV;

    open spec fn deep_view(&self) -> JsonV {
        self.view()
    }
}

// ---------------------------------------------------------------------------
// Members of objects
// ---------------------------------------------------------------------------

/// The value of the first member named `k`.
pub open spec fn find_member(e: Seq<MemberV>, k: Seq<char>) -> Option<JsonV>
    decreases e.len(),
{
    if e.len() == 0 {
        None
    } else if e[0].key == k {
        Some(e[0].value)
    } else {
        find_member(e.drop_first(), k)
    }
}

/// The member `k` of `j` when `j` is an object that has one.
pub open spec fn member(j: JsonV, k: Seq<char>) -> Option<JsonV> {
    match j {
        JsonV::Object(e) => find_member(e, k),
        _ => None,
    }
}

/// The member `k` of `j` when it is there and not `null`.
pub open spec fn present(j: JsonV, k: Seq<char>) -> Option<JsonV> {
    match member(j, k) {
        Some(JsonV::Null) => None,
        m => m,
    }
}

proof fn lemma_find_member_skip(e: Seq<MemberV>, k: Seq<char>, i: int)
    requires
        0 <= i < e.len(),
    ensures
        find_member(e.skip(i), k) == if e[i].key == k {
            Some(e[i].value)
        } else {
            find_member(e.skip(i + 1), k)
        },
{
    assert(e.skip(i).drop_first() =~= e.skip(i + 1));
    assert(e.skip(i)[0] == e[i]);
}

/// Looking up `k` after appending a member: the member found before, else
/// the new one when it has the key.
pub proof fn lemma_find_member_push(e: Seq<MemberV>, x: MemberV, k: Seq<char>)
    ensures
        find_member(e.push(x), k) == match find_member(e, k) {
            Some(v) => Some(v),
            None => if x.key == k {
                Some(x.value)
            } else {
                None
            },
        },
    decreases e.len(),
{
    if e.len() > 0 {
        assert(e.push(x)[0] == e[0]);
        assert(e.push(x).drop_first() =~= e.drop_first().push(x));
        lemma_find_member_push(e.drop_first(), x, k);
    } else {
        assert(e.push(x) =~= seq![x]);
        assert(seq![x][0] == x);
        assert(seq![x].drop_first() =~= Seq::<MemberV>::empty());
        assert(find_member(Seq::<MemberV>::empty(), k) is None);
        assert(find_member(e, k) is None);
    }
}

/// Leaving out members with known keys does not change what an unknown
/// key finds.
pub proof fn lemma_find_unknown(es: Seq<MemberV>, known: Seq<Seq<char>>, k: Seq<char>)
    requires
        !known.contains(k),
    ensures
        find_member(unknown_members(es, known), k) == find_member(es, k),
    decreases es.len(),
{
    if es.len() > 0 {
        let init = es.drop_last();
        let x = es.last();
        lemma_find_unknown(init, known, k);
        assert(es =~= init.push(x));
        lemma_find_member_push(init, x, k);
        if !known.contains(x.key) {
            lemma_find_member_push(unknown_members(init, known), x, k);
        } else {
            assert(x.key != k);
        }
    }
}

/// Whether no member of `e` has the key `k`.
pub open spec fn lacks_key(e: Seq<MemberV>, k: Seq<char>) -> bool {
    forall|i: int| 0 <= i < e.len() ==> (#[trigger] e[i]).key != k
}

/// Members before any with key `k` do not change which one is found.
pub proof fn lemma_find_member_after(a: Seq<MemberV>, b: Seq<MemberV>, k: Seq<char>)
    requires
        lacks_key(a, k),
    ensures
        find_member(a + b, k) == find_member(b, k),
    decreases a.len(),
{
    if a.len() > 0 {
        assert((a + b)[0] == a[0]);
        assert((a + b).drop_first() =~= a.drop_first() + b);
        assert(lacks_key(a.drop_first(), k)) by {
            assert forall|i: int| 0 <= i < a.drop_first().len() implies (
            #[trigger] a.drop_first()[i]).key != k by {
                assert(a.drop_first()[i] == a[i + 1]);
            }
        }
        lemma_find_member_after(a.drop_first(), b, k);
    } else {
        assert(a + b =~= b);
    }
}

/// Two lists without the key `k` make one without it.
pub proof fn lemma_lacks_key_concat(a: Seq<MemberV>, b: Seq<MemberV>, k: Seq<char>)
    requires
        lacks_key(a, k),
        lacks_key(b, k),
    ensures
        lacks_key(a + b, k),
{
    assert forall|i: int| 0 <= i < (a + b).len() implies (#[trigger] (a + b)[i]).key != k by {
        if i < a.len() {
            assert((a + b)[i] == a[i]);
        } else {
            assert((a + b)[i] == b[i - a.len()]);
        }
    }
}

/// An optional member under another key lacks `k`.
pub proof fn lemma_opt_member_lacks(k2: Seq<char>, v: Option<JsonV>, k: Seq<char>)
    requires
        k2 != k,
    ensures
        lacks_key(opt_member(k2, v), k),
{
}

/// Keys that differ in length or in one of their first two characters,
/// and so differ.
pub open spec fn keys_apart(a: Seq<char>, b: Seq<char>) -> bool {
    a.len() != b.len() || (a.len() > 1 && (a[0] != b[0] || a[1] != b[1]))
}

/// No member is found under a key that no member has.
pub proof fn lemma_find_member_missing(e: Seq<MemberV>, k: Seq<char>)
    requires
        lacks_key(e, k),
    ensures
        find_member(e, k) is None,
{
    lemma_find_member_after(e, Seq::empty(), k);
    assert(e + Seq::<MemberV>::empty() =~= e);
}

/// The first member with key `k` is the one found.
pub proof fn lemma_find_member_first(e: Seq<MemberV>, k: Seq<char>, i: int)
    requires
        0 <= i < e.len(),
        e[i].key == k,
        forall|j: int| 0 <= j < i ==> (#[trigger] e[j]).key != k,
    ensures
        find_member(e, k) == Some(e[i].value),
    decreases i,
{
    if i > 0 {
        lemma_find_member_first(e.drop_first(), k, i - 1);
        assert(e.drop_first()[i - 1] == e[i]);
        assert forall|j: int| 0 <= j < i - 1 implies (#[trigger] e.drop_first()[j]).key != k by {
            assert(e.drop_first()[j] == e[j + 1]);
        }
    }
}

proof fn lemma_find_member_index(e: Seq<MemberV>, k: Seq<char>)
    requires
        find_member(e, k) is Some,
    ensures
        exists|i: int| 0 <= i < e.len() && (#[trigger] e[i]).value == find_member(e, k)->0,
    decreases e.len(),
{
    if e[0].key != k {
        lemma_find_member_index(e.drop_first(), k);
        let i = choose|i: int| 0 <= i < e.drop_first().len() && (#[trigger] e.drop_first()[i]).value
            == find_member(e.drop_first(), k)->0;
        assert(e[i + 1] == e.drop_first()[i]);
    } else {
        assert(e[0].value == find_member(e, k)->0);
    }
}

/// A member's value is smaller than the object that holds it.
pub proof fn lemma_member_decreases(j: JsonV, k: Seq<char>)
    requires
        member(j, k) is Some,
    ensures
        decreases_to!(j => member(j, k)->0),
{
    let e = j->Object_0;
    lemma_find_member_index(e, k);
    let i = choose|i: int| 0 <= i < e.len() && (#[trigger] e[i]).value == find_member(e, k)->0;
    assert(decreases_to!(j => j->Object_0));
    assert(decreases_to!(j->Object_0 => j->Object_0[i]));
    assert(decreases_to!(j->Object_0[i] => j->Object_0[i].value));
}

/// An array's item is smaller than the array.
pub proof fn lemma_item_decreases(j: JsonV, i: int)
    requires
        j is Array,
        0 <= i < j->Array_0.len(),
    ensures
        decreases_to!(j => j->Array_0[i]),
{
    assert(decreases_to!(j => j->Array_0));
    assert(decreases_to!(j->Array_0 => j->Array_0[i]));
}

/// The view of an optional reference to a value.
pub open spec fn opt_view(r: Option<&Json>) -> Option<JsonV> {
    match r {
        Some(v) => Some(v@),
        None => None,
    }
}

impl Json {
    /// A copy of this value.
    pub fn duplicate(&self) -> (r: Json)
        ensures
            r@ == self@,
        decreases self,
    {
        match self {
            Json::Null => Json::Null,
            Json::Bool(b) => Json::Bool(*b),
            Json::Number(t) => Json::Number(t.clone()),
            Json::Str(s) => Json::Str(s.clone()),
            Json::Array(a) => {
                let mut out: Vec<Json> = Vec::new();
                let mut i: usize = 0;
                while i < a.len()
                    invariant
                        i <= a@.len(),
                        out@.len() == i,
                        forall|j: int| 0 <= j < i ==> (#[trigger] out@[j])@ == a@[j]@,
                        *self == Json::Array(*a),
                    decreases a.len() - i,
                {
                    assert(decreases_to!(*self => (*self)->Array_0));
                    assert(decreases_to!((*self)->Array_0 => (*self)->Array_0[i as int]));
                    let x = a[i].duplicate();
                    out.push(x);
                    i = i + 1;
                }
                let r = Json::Array(out);
                assert(r@ =~= self@) by {
                    if let JsonV::Array(s1) = r@ {
                        if let JsonV::Array(s2) = self@ {
                            assert(s1 =~= s2);
                        }
                    }
                }
                r
            },
            Json::Object(o) => {
                let mut out: Vec<(String, Json)> = Vec::new();
                let mut i: usize = 0;
                while i < o.len()
                    invariant
                        i <= o@.len(),
                        out@.len() == i,
                        forall|j: int|
                            0 <= j < i ==> (#[trigger] out@[j]).0@ == o@[j].0@ && out@[j].1@
                                == o@[j].1@,
                        *self == Json::Object(*o),
                    decreases o.len() - i,
                {
                    assert(decreases_to!(*self => (*self)->Object_0));
                    assert(decreases_to!((*self)->Object_0 => (*self)->Object_0[i as int]));
                    assert(decreases_to!((*self)->Object_0[i as int] => (*self)->Object_0[i as int].1));
                    let x = o[i].1.duplicate();
                    let k = o[i].0.clone();
                    out.push((k, x));
                    i = i + 1;
                }
                let r = Json::Object(out);
                assert(r@ =~= self@) by {
                    if let JsonV::Object(s1) = r@ {
                        if let JsonV::Object(s2) = self@ {
                            assert forall|j: int| 0 <= j < s1.len() implies s1[j] == s2[j] by {
                                assert(out@[j].0@ == o@[j].0@);
                            }
                            assert(s1 =~= s2);
                        }
                    }
                }
                r
            },
        }
    }

    /// The member `key` of this value, when it is an object that has one.
    pub fn member<'a>(&'a self, key: &str) -> (r: Option<&'a Json>)
        ensures
            opt_view(r) == member(self@, key@),
    {
        match self {
            Json::Object(es) => {
                let ghost e = self@->Object_0;
                assert(e.skip(0) =~= e);
                let mut i: usize = 0;
                while i < es.len()
                    invariant
                        i <= es@.len(),
                        e.len() == es@.len(),
                        *self == Json::Object(*es),
                        self@ == JsonV::Object(e),
                        forall|j: int| 0 <= j < es@.len() ==> #[trigger] e[j] == (MemberV { key: es@[j].0@, value: es@[j].1@ }),
                        find_member(e, key@) == find_member(e.skip(i as int), key@),
                    decreases es.len() - i,
                {
                    proof {
                        lemma_find_member_skip(e, key@, i as int);
                    }
                    assert(e[i as int] == (MemberV { key: es@[i as int].0@, value: es@[i as int].1@ }));
                    if str_eq(es[i].0.as_str(), key) {
                        return Some(&es[i].1);
                    }
                    i = i + 1;
                }
                assert(e.skip(i as int).len() == 0);
                None
            },
            _ => None,
        }
    }
}

// ---------------------------------------------------------------------------
// Integers written as JSON numbers
// ---------------------------------------------------------------------------

/// Whether `c` is a decimal digit.
pub open spec fn is_digit(c: char) -> bool {
    '0' <= c <= '9'
}

/// Whether every character of `s` is a decimal digit.
pub open spec fn all_digits(s: Seq<char>) -> bool {
    forall|i: int| 0 <= i < s.len() ==> is_digit(#[trigger] s[i])
}

/// The value of a string of decimal digits.
pub open spec fn digits_value(s: Seq<char>) -> nat
    decreases s.len(),
{
    if s.len() == 0 {
        0
    } else {
        digits_value(s.drop_last()) * 10 + (s.last() as nat - '0' as nat) as nat
    }
}

/// The `i64` that the JSON number text `t` denotes, when it is an integer in
/// range: an optional `-` and at least one digit, and nothing else.
pub open spec fn int_of_text(t: Seq<char>) -> Option<i64> {
    if t.len() > 0 && t[0] == '-' {
        let d = t.drop_first();
        if d.len() > 0 && all_digits(d) && digits_value(d) <= 9223372036854775808 {
            Some((0 - digits_value(d)) as i64)
        } else {
            None
        }
    } else if t.len() > 0 && all_digits(t) && digits_value(t) <= 9223372036854775807 {
        Some(digits_value(t) as i64)
    } else {
        None
    }
}

proof fn lemma_digits_value_prefix(s: Seq<char>, i: int)
    requires
        0 <= i <= s.len(),
        all_digits(s),
    ensures
        digits_value(s.take(i)) <= digits_value(s),
    decreases s.len(),
{
    if i < s.len() {
        assert(s.drop_last().take(i) =~= s.take(i));
        assert(all_digits(s.drop_last())) by {
            assert forall|j: int| 0 <= j < s.drop_last().len() implies is_digit(
                #[trigger] s.drop_last()[j],
            ) by {
                assert(s.drop_last()[j] == s[j]);
            }
        }
        lemma_digits_value_prefix(s.drop_last(), i);
    } else {
        assert(s.take(i) =~= s);
    }
}

/// The digits of `cs[from..]` as a number, if they are all digits and the
/// number is at most `limit`.
fn digits_at_most(cs: &Vec<char>, from: usize, limit: u64) -> (r: Option<u64>)
    requires
        from <= cs@.len(),
        limit >= 9,
    ensures
        r matches Some(v) ==> all_digits(cs@.skip(from as int)) && v == digits_value(
            cs@.skip(from as int),
        ) && v <= limit,
        r is None ==> !(all_digits(cs@.skip(from as int)) && digits_value(cs@.skip(from as int))
            <= limit),
{
    let ghost d = cs@.skip(from as int);
    let mut acc: u64 = 0;
    let mut i: usize = from;
    assert(d.take(0) =~= Seq::<char>::empty());
    while i < cs.len()
        invariant
            from <= i <= cs@.len(),
            d == cs@.skip(from as int),
            all_digits(d.take(i - from)),
            acc == digits_value(d.take(i - from)),
            acc <= limit,
            limit >= 9,
        decreases cs.len() - i,
    {
        let c = cs[i];
        assert(d[i - from] == c);
        if !('0' <= c && c <= '9') {
            assert(!all_digits(d)) by {
                assert(!is_digit(d[i - from]));
            }
            return None;
        }
        let dv: u64 = (c as u32 - '0' as u32) as u64;
        assert(d.take(i - from + 1).drop_last() =~= d.take(i - from));
        assert(all_digits(d.take(i - from + 1))) by {
            assert forall|j: int| 0 <= j < d.take(i - from + 1).len() implies is_digit(
                #[trigger] d.take(i - from + 1)[j],
            ) by {
                if j < i - from {
                    assert(d.take(i - from + 1)[j] == d.take(i - from)[j]);
                }
            }
        }
        if acc > (limit - dv) / 10 {
            assert(digits_value(d.take(i - from + 1)) > limit) by (nonlinear_arith)
                requires
                    digits_value(d.take(i - from + 1)) == acc * 10 + dv,
                    acc > (limit - dv) / 10,
                    dv <= 9,
            ;
            proof {
                if all_digits(d) {
                    lemma_digits_value_prefix(d, i - from + 1);
                }
            }
            return None;
        }
        assert(acc * 10 + dv <= limit) by (nonlinear_arith)
            requires
                acc <= (limit - dv) / 10,
                dv <= limit,
        ;
        acc = acc * 10 + dv;
        i = i + 1;
    }
    assert(d.take(i - from) =~= d);
    Some(acc)
}

/// The `i64` that the JSON number text `t` denotes; see [`int_of_text`].
pub fn int_of_number_text(t: &str) -> (r: Option<i64>)
    ensures
        r == int_of_text(t@),
{
    let cs = chars_of(t);
    if cs.len() == 0 {
        return None;
    }
    if cs[0] == '-' {
        assert(cs@.skip(1) =~= t@.drop_first());
        if cs.len() == 1 {
            return None;
        }
        match digits_at_most(&cs, 1, 9223372036854775808u64) {
            Some(v) => {
                let n: i128 = 0 - (v as i128);
                Some(n as i64)
            },
            None => None,
        }
    } else {
        assert(cs@.skip(0) =~= t@);
        match digits_at_most(&cs, 0, 9223372036854775807u64) {
            Some(v) => Some(v as i64),
            None => None,
        }
    }
}

/// The decimal digit character for `d < 10`.
pub open spec fn digit_char(d: nat) -> char {
    ((d + 48) as u8) as char
}

/// The decimal text of `n`.
pub open spec fn nat_text(n: nat) -> Seq<char>
    decreases n,
{
    if n < 10 {
        seq![digit_char(n)]
    } else {
        nat_text(n / 10).push(digit_char(n % 10))
    }
}

/// The decimal text of `i`, with a leading `-` when it is negative.
pub open spec fn int_text(i: int) -> Seq<char> {
    if i < 0 {
        seq!['-'] + nat_text((0 - i) as nat)
    } else {
        nat_text(i as nat)
    }
}

fn push_nat_text(s: &mut String, n: u64)
    ensures
        final(s)@ == old(s)@ + nat_text(n as nat),
    decreases n,
{
    if n >= 10 {
        push_nat_text(s, n / 10);
    }
    let d: u8 = (n % 10) as u8;
    push_char(s, (48u8 + d) as char);
    assert(s@ == old(s)@ + nat_text(n as nat));
}

/// The decimal text of `n`.
pub fn text_of_nat(n: u64) -> (r: String)
    ensures
        r@ == nat_text(n as nat),
{
    let mut s = String::new();
    push_nat_text(&mut s, n);
    s
}

/// The decimal text of `i`.
pub fn text_of_int(i: i64) -> (r: String)
    ensures
        r@ == int_text(i as int),
{
    let mut s = String::new();
    if i < 0 {
        push_char(&mut s, '-');
        let m: u64 = (0 - (i as i128)) as u64;
        push_nat_text(&mut s, m);
    } else {
        push_nat_text(&mut s, i as u64);
    }
    assert(s@ =~= int_text(i as int));
    s
}

// ---------------------------------------------------------------------------
// Typed reads of object members, as a derived deserializer makes them:
// an optional member may be absent or `null`; a present member of the wrong
// kind is an error.
// ---------------------------------------------------------------------------

/// A required string member.
pub open spec fn read_str(j: JsonV, k: Seq<char>) -> Result<Seq<char>, ()> {
    match member(j, k) {
        Some(JsonV::Str(s)) => Ok(s),
        _ => Err(()),
    }
}

/// An optional string member.
pub open spec fn read_opt_str(j: JsonV, k: Seq<char>) -> Result<Option<Seq<char>>, ()> {
    match present(j, k) {
        None => Ok(None),
        Some(JsonV::Str(s)) => Ok(Some(s)),
        _ => Err(()),
    }
}

/// An optional boolean member.
pub open spec fn read_opt_bool(j: JsonV, k: Seq<char>) -> Result<Option<bool>, ()> {
    match present(j, k) {
        None => Ok(None),
        Some(JsonV::Bool(b)) => Ok(Some(b)),
        _ => Err(()),
    }
}

/// An optional `i64` member.
pub open spec fn read_opt_int(j: JsonV, k: Seq<char>) -> Result<Option<i64>, ()> {
    match present(j, k) {
        None => Ok(None),
        Some(JsonV::Number(t)) => match int_of_text(t) {
            Some(i) => Ok(Some(i)),
            None => Err(()),
        },
        _ => Err(()),
    }
}

/// A required `i64` member.
pub open spec fn read_int(j: JsonV, k: Seq<char>) -> Result<i64, ()> {
    match member(j, k) {
        Some(JsonV::Number(t)) => match int_of_text(t) {
            Some(i) => Ok(i),
            None => Err(()),
        },
        _ => Err(()),
    }
}

/// An optional member that holds any number; its JSON text.
pub open spec fn read_opt_number(j: JsonV, k: Seq<char>) -> Result<Option<Seq<char>>, ()> {
    match present(j, k) {
        None => Ok(None),
        Some(JsonV::Number(t)) => Ok(Some(t)),
        _ => Err(()),
    }
}

/// A required member of any kind (`null` included).
pub open spec fn read_value(j: JsonV, k: Seq<char>) -> Result<JsonV, ()> {
    match member(j, k) {
        Some(v) => Ok(v),
        None => Err(()),
    }
}

/// The view of an optional owned value.
pub open spec fn opt_json(o: Option<Json>) -> Option<JsonV> {
    match o {
        Some(v) => Some(v@),
        None => None,
    }
}

impl Json {
    /// The member `key` when it is present and not `null`.
    pub fn present<'a>(&'a self, key: &str) -> (r: Option<&'a Json>)
        ensures
            opt_view(r) == present(self@, key@),
    {
        match self.member(key) {
            Some(Json::Null) => None,
            m => m,
        }
    }

    /// See [`read_str`].
    pub fn read_str(&self, key: &str) -> (r: Result<String, ()>)
        ensures
            match r {
                Ok(s) => read_str(self@, key@) == Ok::<Seq<char>, ()>(s@),
                Err(_) => read_str(self@, key@) is Err,
            },
    {
        match self.member(key) {
            Some(Json::Str(s)) => Ok(s.clone()),
            _ => Err(()),
        }
    }

    /// See [`read_opt_str`].
    pub fn read_opt_str(&self, key: &str) -> (r: Result<Option<String>, ()>)
        ensures
            match r {
                Ok(o) => read_opt_str(self@, key@) == Ok::<Option<Seq<char>>, ()>(o.deep_view()),
                Err(_) => read_opt_str(self@, key@) is Err,
            },
    {
        match self.present(key) {
            None => Ok(None),
            Some(Json::Str(s)) => Ok(Some(s.clone())),
            _ => Err(()),
        }
    }

    /// See [`read_opt_bool`].
    pub fn read_opt_bool(&self, key: &str) -> (r: Result<Option<bool>, ()>)
        ensures
            match r {
                Ok(o) => read_opt_bool(self@, key@) == Ok::<Option<bool>, ()>(o),
                Err(_) => read_opt_bool(self@, key@) is Err,
            },
    {
        match self.present(key) {
            None => Ok(None),
            Some(Json::Bool(b)) => Ok(Some(*b)),
            _ => Err(()),
        }
    }

    /// See [`read_opt_int`].
    pub fn read_opt_int(&self, key: &str) -> (r: Result<Option<i64>, ()>)
        ensures
            match r {
                Ok(o) => read_opt_int(self@, key@) == Ok::<Option<i64>, ()>(o),
                Err(_) => read_opt_int(self@, key@) is Err,
            },
    {
        match self.present(key) {
            None => Ok(None),
            Some(Json::Number(t)) => match int_of_number_text(t.as_str()) {
                Some(i) => Ok(Some(i)),
                None => Err(()),
            },
            _ => Err(()),
        }
    }

    /// See [`read_int`].
    pub fn read_int(&self, key: &str) -> (r: Result<i64, ()>)
        ensures
            match r {
                Ok(i) => read_int(self@, key@) == Ok::<i64, ()>(i),
                Err(_) => read_int(self@, key@) is Err,
            },
    {
        match self.member(key) {
            Some(Json::Number(t)) => match int_of_number_text(t.as_str()) {
                Some(i) => Ok(i),
                None => Err(()),
            },
            _ => Err(()),
        }
    }

    /// See [`read_opt_number`].
    pub fn read_opt_number(&self, key: &str) -> (r: Result<Option<String>, ()>)
        ensures
            match r {
                Ok(o) => read_opt_number(self@, key@) == Ok::<Option<Seq<char>>, ()>(o.deep_view()),
                Err(_) => read_opt_number(self@, key@) is Err,
            },
    {
        match self.present(key) {
            None => Ok(None),
            Some(Json::Number(t)) => Ok(Some(t.clone())),
            _ => Err(()),
        }
    }

    /// A copy of the member `key` when it is present and not `null`.
    pub fn read_opt_value(&self, key: &str) -> (r: Option<Json>)
        ensures
            opt_json(r) == present(self@, key@),
    {
        match self.present(key) {
            None => None,
            Some(v) => Some(v.duplicate()),
        }
    }

    /// See [`read_value`].
    pub fn read_value(&self, key: &str) -> (r: Result<Json, ()>)
        ensures
            match r {
                Ok(v) => read_value(self@, key@) == Ok::<JsonV, ()>(v@),
                Err(_) => read_value(self@, key@) is Err,
            },
    {
        match self.member(key) {
            None => Err(()),
            Some(v) => Ok(v.duplicate()),
        }
    }
}

// ---------------------------------------------------------------------------
// Lenient reads: the value when a member is there with the expected kind,
// nothing (or the empty default) otherwise.
// ---------------------------------------------------------------------------

/// The kinds of JSON value that a member may be asked to have.
#[derive(Debug, Clone, Copy, PartialEq, Eq, Structural)]
pub enum Kind {
    Str,
    Bool,
    Int,
    I32,
    Number,
    Array,
    Object,
}

/// Whether `v` has the kind `k` (an `Int` is a number whose text is an
/// integer that fits in `i64`).
pub open spec fn has_kind(v: JsonV, k: Kind) -> bool {
    match k {
        Kind::Str => v is Str,
        Kind::Bool => v is Bool,
        Kind::Int => v matches JsonV::Number(t) && int_of_text(t) is Some,
        Kind::I32 => v matches JsonV::Number(t) && int_of_text(t) matches Some(i) && i32::MIN <= i
            <= i32::MAX,
        Kind::Number => v is Number,
        Kind::Array => v is Array,
        Kind::Object => v is Object,
    }
}

/// The member `key` is there and of kind `k`.
pub open spec fn req_kind(j: JsonV, key: Seq<char>, k: Kind) -> bool {
    member(j, key) matches Some(v) && has_kind(v, k)
}

/// The member `key` is absent, `null`, or of kind `k`.
pub open spec fn opt_kind(j: JsonV, key: Seq<char>, k: Kind) -> bool {
    present(j, key) matches Some(v) ==> has_kind(v, k)
}

/// The string of the member `key`, when it is one.
pub open spec fn str_of(j: JsonV, key: Seq<char>) -> Option<Seq<char>> {
    match member(j, key) {
        Some(JsonV::Str(s)) => Some(s),
        _ => None,
    }
}

/// The string of the member `key`, or the empty string.
pub open spec fn str_or_empty(j: JsonV, key: Seq<char>) -> Seq<char> {
    match str_of(j, key) {
        Some(s) => s,
        None => Seq::empty(),
    }
}

/// The boolean of the member `key`, when it is one.
pub open spec fn bool_of(j: JsonV, key: Seq<char>) -> Option<bool> {
    match member(j, key) {
        Some(JsonV::Bool(b)) => Some(b),
        _ => None,
    }
}

/// The integer of the member `key`, when it is a number with an `i64` value.
pub open spec fn int_of(j: JsonV, key: Seq<char>) -> Option<i64> {
    match member(j, key) {
        Some(JsonV::Number(t)) => int_of_text(t),
        _ => None,
    }
}

/// The integer of the member `key` as an `i32`, or 0 when it is no
/// integer in that range.
pub open spec fn i32_of(j: JsonV, key: Seq<char>) -> i32 {
    match int_of(j, key) {
        Some(i) => if i32::MIN <= i <= i32::MAX {
            i as i32
        } else {
            0
        },
        None => 0,
    }
}

/// The text of the member `key`, when it is a number.
pub open spec fn num_of(j: JsonV, key: Seq<char>) -> Option<Seq<char>> {
    match member(j, key) {
        Some(JsonV::Number(t)) => Some(t),
        _ => None,
    }
}

/// The items of the member `key`, or none when it is not an array.
pub open spec fn items_of(j: JsonV, key: Seq<char>) -> Seq<JsonV> {
    match member(j, key) {
        Some(JsonV::Array(xs)) => xs,
        _ => Seq::empty(),
    }
}

/// The items of an array value, or none.
pub open spec fn items(v: JsonV) -> Seq<JsonV> {
    match v {
        JsonV::Array(xs) => xs,
        _ => Seq::empty(),
    }
}

/// Whether every item of `xs` is a string.
pub open spec fn all_strings(xs: Seq<JsonV>) -> bool {
    forall|i: int| 0 <= i < xs.len() ==> (#[trigger] xs[i]) is Str
}

/// The strings among `xs`, in order.
pub open spec fn strings_of(xs: Seq<JsonV>) -> Seq<Seq<char>> {
    xs.filter_map(|x: JsonV| match x {
        JsonV::Str(s) => Some(s),
        _ => None,
    })
}

/// Whether the array member `key`, when it is there and not `null`, is an
/// array of strings.
pub open spec fn opt_strings(j: JsonV, key: Seq<char>) -> bool {
    opt_kind(j, key, Kind::Array) && all_strings(items_of(j, key))
}

proof fn lemma_array_view(a: &Vec<Json>)
    ensures
        Json::Array(*a)@ == JsonV::Array(items_view(a@)),
{
    assert(Json::Array(*a)@->Array_0 =~= items_view(a@));
}

impl Json {
    /// Whether this value has the kind `k`.
    pub fn is_kind(&self, k: Kind) -> (r: bool)
        ensures
            r == has_kind(self@, k),
    {
        match k {
            Kind::Str => self.is_str(),
            Kind::Bool => match self {
                Json::Bool(_) => true,
                _ => false,
            },
            Kind::Int => match self {
                Json::Number(t) => int_of_number_text(t.as_str()).is_some(),
                _ => false,
            },
            Kind::I32 => match self {
                Json::Number(t) => match int_of_number_text(t.as_str()) {
                    Some(i) => -2147483648 <= i && i <= 2147483647,
                    None => false,
                },
                _ => false,
            },
            Kind::Number => match self {
                Json::Number(_) => true,
                _ => false,
            },
            Kind::Array => match self {
                Json::Array(_) => true,
                _ => false,
            },
            Kind::Object => match self {
                Json::Object(_) => true,
                _ => false,
            },
        }
    }

    fn is_str(&self) -> (r: bool)
        ensures
            r == (self@ is Str),
    {
        match self {
            Json::Str(_) => true,
            _ => false,
        }
    }

    /// See [`req_kind`].
    pub fn req_kind(&self, key: &str, k: Kind) -> (r: bool)
        ensures
            r == req_kind(self@, key@, k),
    {
        match self.member(key) {
            Some(v) => v.is_kind(k),
            None => false,
        }
    }

    /// See [`opt_kind`].
    pub fn opt_kind(&self, key: &str, k: Kind) -> (r: bool)
        ensures
            r == opt_kind(self@, key@, k),
    {
        match self.present(key) {
            Some(v) => v.is_kind(k),
            None => true,
        }
    }

    /// See [`str_of`].
    pub fn str_of(&self, key: &str) -> (r: Option<String>)
        ensures
            r.deep_view() == str_of(self@, key@),
    {
        match self.member(key) {
            Some(Json::Str(s)) => Some(s.clone()),
            _ => None,
        }
    }

    /// See [`str_or_empty`].
    pub fn str_or_empty(&self, key: &str) -> (r: String)
        ensures
            r@ == str_or_empty(self@, key@),
    {
        match self.member(key) {
            Some(Json::Str(s)) => s.clone(),
            _ => String::new(),
        }
    }

    /// See [`bool_of`].
    pub fn bool_of(&self, key: &str) -> (r: Option<bool>)
        ensures
            r == bool_of(self@, key@),
    {
        match self.member(key) {
            Some(Json::Bool(b)) => Some(*b),
            _ => None,
        }
    }

    /// See [`int_of`].
    pub fn int_of(&self, key: &str) -> (r: Option<i64>)
        ensures
            r == int_of(self@, key@),
    {
        match self.member(key) {
            Some(Json::Number(t)) => int_of_number_text(t.as_str()),
            _ => None,
        }
    }

    /// See [`i32_of`].
    pub fn i32_of(&self, key: &str) -> (r: i32)
        ensures
            r == i32_of(self@, key@),
    {
        match self.int_of(key) {
            Some(i) => if -2147483648 <= i && i <= 2147483647 {
                i as i32
            } else {
                0
            },
            None => 0,
        }
    }

    /// See [`num_of`].
    pub fn num_of(&self, key: &str) -> (r: Option<String>)
        ensures
            r.deep_view() == num_of(self@, key@),
    {
        match self.member(key) {
            Some(Json::Number(t)) => Some(t.clone()),
            _ => None,
        }
    }

    /// See [`items_of`].
    pub fn items_of<'a>(&'a self, key: &str) -> (r: &'a [Json])
        ensures
            items_view(r@) == items_of(self@, key@),
    {
        match self.member(key) {
            Some(Json::Array(a)) => {
                proof {
                    lemma_array_view(a);
                }
                a.as_slice()
            },
            _ => {
                let e: &[Json] = &[];
                assert(items_view(e@) =~= Seq::<JsonV>::empty());
                e
            },
        }
    }

    /// See [`items`].
    pub fn items<'a>(&'a self) -> (r: &'a [Json])
        ensures
            items_view(r@) == items(self@),
    {
        match self {
            Json::Array(a) => {
                proof {
                    lemma_array_view(a);
                }
                a.as_slice()
            },
            _ => {
                let e: &[Json] = &[];
                assert(items_view(e@) =~= Seq::<JsonV>::empty());
                e
            },
        }
    }
}

/// Whether every item of `xs` is a string.
pub fn check_all_strings(xs: &[Json]) -> (r: bool)
    ensures
        r == all_strings(items_view(xs@)),
{
    let mut i: usize = 0;
    while i < xs.len()
        invariant
            i <= xs@.len(),
            forall|k: int| 0 <= k < i ==> (#[trigger] items_view(xs@)[k]) is Str,
        decreases xs.len() - i,
    {
        assert(items_view(xs@)[i as int] == xs@[i as int]@);
        if !xs[i].is_str() {
            return false;
        }
        i = i + 1;
    }
    true
}

/// See [`opt_strings`].
pub fn check_opt_strings(j: &Json, key: &str) -> (r: bool)
    ensures
        r == opt_strings(j@, key@),
{
    j.opt_kind(key, Kind::Array) && check_all_strings(j.items_of(key))
}

/// The strings among `xs`, in order.
pub fn collect_strings(xs: &[Json]) -> (r: Vec<String>)
    ensures
        r.deep_view() == strings_of(items_view(xs@)),
{
    let mut out: Vec<String> = Vec::new();
    let ghost v = items_view(xs@);
    let mut i: usize = 0;
    while i < xs.len()
        invariant
            i <= xs@.len(),
            v == items_view(xs@),
            out.deep_view() == strings_of(v.take(i as int)),
        decreases xs.len() - i,
    {
        proof {
            crate::seqs::lemma_take_succ(v, i as int);
        }
        match &xs[i] {
            Json::Str(s) => {
                out.push(s.clone());
            },
            _ => {},
        }
        assert(out.deep_view() =~= strings_of(v.take(i + 1)));
        i = i + 1;
    }
    assert(v.take(i as int) =~= v);
    out
}

/// The member `k` of `j`, or `null`.
pub open spec fn member_or_null(j: JsonV, k: Seq<char>) -> JsonV {
    match member(j, k) {
        Some(v) => v,
        None => JsonV::Null,
    }
}

/// The members of an object value, or none.
pub open spec fn obj_members(j: JsonV) -> Seq<MemberV> {
    match j {
        JsonV::Object(es) => es,
        _ => Seq::empty(),
    }
}

/// The members of `es` whose keys are not in `known`, in order.
pub open spec fn unknown_members(es: Seq<MemberV>, known: Seq<Seq<char>>) -> Seq<MemberV>
    decreases es.len(),
{
    if es.len() == 0 {
        Seq::empty()
    } else {
        let rest = unknown_members(es.drop_last(), known);
        if known.contains(es.last().key) {
            rest
        } else {
            rest.push(es.last())
        }
    }
}

proof fn lemma_object_view(es: &Vec<(String, Json)>)
    ensures
        Json::Object(*es)@ == JsonV::Object(members_view(es@)),
{
    assert(Json::Object(*es)@->Object_0 =~= members_view(es@));
}

/// Whether `k` is one of `names`.
pub fn listed(names: &Vec<String>, k: &str) -> (r: bool)
    ensures
        r == names.deep_view().contains(k@),
{
    let mut i: usize = 0;
    while i < names.len()
        invariant
            i <= names@.len(),
            forall|m: int| 0 <= m < i ==> names.deep_view()[m] != k@,
        decreases names.len() - i,
    {
        if str_eq(names[i].as_str(), k) {
            assert(names.deep_view()[i as int] == k@);
            return true;
        }
        i = i + 1;
    }
    false
}

/// Copies of the members of `j` whose keys are not in `known`, in order.
pub fn collect_unknown(j: &Json, known: &Vec<String>) -> (r: Vec<(String, Json)>)
    ensures
        members_view(r@) == unknown_members(obj_members(j@), known.deep_view()),
{
    let mut out: Vec<(String, Json)> = Vec::new();
    match j {
        Json::Object(es) => {
            proof {
                lemma_object_view(es);
            }
            let ghost ms = members_view(es@);
            let mut i: usize = 0;
            while i < es.len()
                invariant
                    i <= es@.len(),
                    ms == members_view(es@),
                    members_view(out@) == unknown_members(ms.take(i as int), known.deep_view()),
                decreases es.len() - i,
            {
                proof {
                    crate::seqs::lemma_take_succ(ms, i as int);
                }
                if !listed(known, es[i].0.as_str()) {
                    let v = es[i].1.duplicate();
                    push_member(&mut out, es[i].0.as_str(), v);
                }
                i = i + 1;
            }
            assert(ms.take(i as int) =~= ms);
        },
        _ => {
            assert(members_view(out@) =~= Seq::<MemberV>::empty());
        },
    }
    out
}

// ---------------------------------------------------------------------------
// Building values
// ---------------------------------------------------------------------------

/// The views of object members.
pub open spec fn members_view(s: Seq<(String, Json)>) -> Seq<MemberV> {
    Seq::new(s.len(), |i: int| MemberV { key: s[i].0@, value: s[i].1@ })
}

/// The views of array items.
pub open spec fn items_view(s: Seq<Json>) -> Seq<JsonV> {
    Seq::new(s.len(), |i: int| s[i]@)
}

/// A member named `k` holding `v`.
pub open spec fn mv(k: Seq<char>, v: JsonV) -> MemberV {
    MemberV { key: k, value: v }
}

/// The member `k: v` when `v` is there, nothing otherwise.
pub open spec fn opt_member(k: Seq<char>, v: Option<JsonV>) -> Seq<MemberV> {
    match v {
        Some(x) => seq![mv(k, x)],
        None => Seq::empty(),
    }
}

/// No members yet.
pub fn no_members() -> (r: Vec<(String, Json)>)
    ensures
        r@.len() == 0,
        members_view(r@) == Seq::<MemberV>::empty(),
{
    let r: Vec<(String, Json)> = Vec::new();
    assert(members_view(r@) =~= Seq::<MemberV>::empty());
    r
}

/// No items yet.
pub fn no_items() -> (r: Vec<Json>)
    ensures
        r@.len() == 0,
        items_view(r@) == Seq::<JsonV>::empty(),
{
    let r: Vec<Json> = Vec::new();
    assert(items_view(r@) =~= Seq::<JsonV>::empty());
    r
}

/// An object with the members `es`, in order.
pub fn object(es: Vec<(String, Json)>) -> (r: Json)
    ensures
        r@ == JsonV::Object(members_view(es@)),
{
    let ghost v = members_view(es@);
    let r = Json::Object(es);
    assert(r@->Object_0 =~= v);
    r
}

/// An array of the items `xs`, in order.
pub fn array(xs: Vec<Json>) -> (r: Json)
    ensures
        r@ == JsonV::Array(items_view(xs@)),
{
    let ghost v = items_view(xs@);
    let r = Json::Array(xs);
    assert(r@->Array_0 =~= v);
    r
}

/// A JSON string holding `s`.
pub fn string(s: &str) -> (r: Json)
    ensures
        r@ == JsonV::Str(s@),
{
    Json::Str(s.to_owned())
}

/// A JSON number holding `i`.
pub fn int_json(i: i64) -> (r: Json)
    ensures
        r@ == JsonV::Number(int_text(i as int)),
{
    Json::Number(text_of_int(i))
}

/// Appends the member `k: v`.
pub fn push_member(es: &mut Vec<(String, Json)>, k: &str, v: Json)
    ensures
        members_view(final(es)@) == members_view(old(es)@).push(mv(k@, v@)),
{
    let ghost old_es = es@;
    es.push((k.to_owned(), v));
    assert(members_view(es@) =~= members_view(old_es).push(mv(k@, v@)));
}

/// Appends the member `k: v` when `v` is there.
pub fn push_opt_member(es: &mut Vec<(String, Json)>, k: &str, v: Option<Json>)
    ensures
        members_view(final(es)@) == members_view(old(es)@) + opt_member(k@, opt_json(v)),
{
    let ghost old_es = es@;
    match v {
        Some(x) => {
            push_member(es, k, x);
            assert(members_view(es@) =~= members_view(old_es) + opt_member(k@, opt_json(v)));
        },
        None => {
            assert(members_view(es@) =~= members_view(old_es) + opt_member(k@, opt_json(v)));
        },
    }
}

/// A JSON string for the string that is there.
pub open spec fn opt_str_v(o: Option<Seq<char>>) -> Option<JsonV> {
    match o {
        Some(s) => Some(JsonV::Str(s)),
        None => None,
    }
}

/// A JSON string for the string that is there.
pub fn opt_string(o: &Option<String>) -> (r: Option<Json>)
    ensures
        opt_json(r) == opt_str_v(o.deep_view()),
{
    match o {
        Some(s) => Some(Json::Str(s.clone())),
        None => None,
    }
}

/// A JSON number for the text that is there.
pub open spec fn opt_num_v(o: Option<Seq<char>>) -> Option<JsonV> {
    match o {
        Some(s) => Some(JsonV::Number(s)),
        None => None,
    }
}

/// A JSON number for the text that is there.
pub fn opt_number(o: &Option<String>) -> (r: Option<Json>)
    ensures
        opt_json(r) == opt_num_v(o.deep_view()),
{
    match o {
        Some(s) => Some(Json::Number(s.clone())),
        None => None,
    }
}

/// A JSON number for the integer that is there.
pub open spec fn opt_int_v(o: Option<i64>) -> Option<JsonV> {
    match o {
        Some(n) => Some(JsonV::Number(int_text(n as int))),
        None => None,
    }
}

/// A JSON number for the integer that is there.
pub fn opt_int(o: Option<i64>) -> (r: Option<Json>)
    ensures
        opt_json(r) == opt_int_v(o),
{
    match o {
        Some(n) => Some(int_json(n)),
        None => None,
    }
}

/// A JSON boolean for the boolean that is there.
pub open spec fn opt_bool_v(o: Option<bool>) -> Option<JsonV> {
    match o {
        Some(b) => Some(JsonV::Bool(b)),
        None => None,
    }
}

/// A JSON boolean for the boolean that is there.
pub fn opt_boolean(o: Option<bool>) -> (r: Option<Json>)
    ensures
        opt_json(r) == opt_bool_v(o),
{
    match o {
        Some(b) => Some(Json::Bool(b)),
        None => None,
    }
}

/// A copy of the value that is there.
pub fn opt_copy(o: &Option<Json>) -> (r: Option<Json>)
    ensures
        opt_json(r) == opt_json(*o),
{
    match o {
        Some(v) => Some(v.duplicate()),
        None => None,
    }
}

/// Copies of the members `es`.
pub fn copy_members(es: &Vec<(String, Json)>) -> (r: Vec<(String, Json)>)
    ensures
        members_view(r@) == members_view(es@),
{
    let mut out: Vec<(String, Json)> = Vec::new();
    let mut i: usize = 0;
    while i < es.len()
        invariant
            i <= es@.len(),
            members_view(out@) == members_view(es@).take(i as int),
        decreases es.len() - i,
    {
        let v = es[i].1.duplicate();
        push_member(&mut out, es[i].0.as_str(), v);
        assert(members_view(out@) =~= members_view(es@).take(i + 1));
        i = i + 1;
    }
    assert(members_view(es@).take(i as int) =~= members_view(es@));
    out
}

/// Appends copies of the members `more`.
pub fn append_members(es: &mut Vec<(String, Json)>, more: &Vec<(String, Json)>)
    ensures
        members_view(final(es)@) == members_view(old(es)@) + members_view(more@),
{
    let ghost e0 = members_view(es@);
    let mut i: usize = 0;
    while i < more.len()
        invariant
            i <= more@.len(),
            members_view(es@) == e0 + members_view(more@).take(i as int),
        decreases more.len() - i,
    {
        let v = more[i].1.duplicate();
        push_member(es, more[i].0.as_str(), v);
        assert(members_view(es@) =~= e0 + members_view(more@).take(i + 1));
        i = i + 1;
    }
    assert(members_view(more@).take(i as int) =~= members_view(more@));
}

/// The JSON object with the members `es`.
pub open spec fn obj(es: Seq<MemberV>) -> JsonV {
    JsonV::Object(es)
}

/// The list `v` when it is not empty.
pub open spec fn nonempty(v: Seq<JsonV>) -> Option<JsonV> {
    if v.len() == 0 {
        None
    } else {
        Some(JsonV::Array(v))
    }
}

/// A JSON number for `n`.
pub open spec fn num(n: int) -> JsonV {
    JsonV::Number(int_text(n))
}

/// The value of an optional count, 0 when it is absent.
pub open spec fn count_or_zero(o: Option<i64>) -> int {
    match o {
        Some(n) => n as int,
        None => 0,
    }
}

/// The string that is there, or the empty string.
pub open spec fn or_empty(o: Option<Seq<char>>) -> Seq<char> {
    match o {
        Some(s) => s,
        None => Seq::empty(),
    }
}

/// The string when it is not empty.
pub open spec fn nonempty_str(s: Seq<char>) -> Option<JsonV> {
    if s.len() == 0 {
        None
    } else {
        Some(JsonV::Str(s))
    }
}

pub fn count_or_zero_of(o: Option<i64>) -> (r: i64)
    ensures
        r == count_or_zero(o),
{
    match o {
        Some(n) => n,
        None => 0,
    }
}

pub fn or_empty_of(o: &Option<String>) -> (r: String)
    ensures
        r@ == or_empty(o.deep_view()),
{
    match o {
        Some(s) => s.clone(),
        None => String::new(),
    }
}

pub fn nonempty_string(s: &str) -> (r: Option<Json>)
    ensures
        opt_json(r) == nonempty_str(s@),
{
    if s.as_bytes().len() == 0 {
        assert(s@.len() == 0) by {
            if s@.len() > 0 {
                vstd::utf8::encode_utf8_first_scalar(s@);
            }
        }
        None
    } else {
        Some(string(s))
    }
}

/// Appends the item `v`.
pub fn push_item(xs: &mut Vec<Json>, v: Json)
    ensures
        items_view(final(xs)@) == items_view(old(xs)@).push(v@),
{
    let ghost old_xs = xs@;
    xs.push(v);
    assert(items_view(xs@) =~= items_view(old_xs).push(v@));
}

// ---------------------------------------------------------------------------
// JSON text, through serde_json
// ---------------------------------------------------------------------------

#[verifier::external_type_specification]
#[verifier::external_body]
pub struct ExSerdeJsonValue(serde_json::Value);

/// Converts a `serde_json::Value` into a [`Json`], variant for variant: a
/// number becomes its `Display` text, arrays and objects are converted item
/// by item in their order.
#[verifier::external_body]
fn json_from_value(v: serde_json::Value) -> Json {
    match v {
        serde_json::Value::Null => Json::Null,
        serde_json::Value::Bool(b) => Json::Bool(b),
        serde_json::Value::Number(n) => Json::Number(n.to_string()),
        serde_json::Value::String(s) => Json::Str(s),
        serde_json::Value::Array(a) => Json::Array(a.into_iter().map(json_from_value).collect()),
        serde_json::Value::Object(m) => Json::Object(
            m.into_iter().map(|(k, x)| (k, json_from_value(x))).collect(),
        ),
    }
}

/// Converts a [`Json`] into a `serde_json::Value`, variant for variant: a
/// number is read back from its text (`serde_json::Number::from_str`; text
/// that is no JSON number becomes `null`), arrays and objects item by item.
#[verifier::external_body]
fn json_to_value(j: &Json) -> serde_json::Value {
    match j {
        Json::Null => serde_json::Value::Null,
        Json::Bool(b) => serde_json::Value::Bool(*b),
        Json::Number(t) => t.parse::<serde_json::Number>().map_or(serde_json::Value::Null, serde_json::Value::Number),
        Json::Str(s) => serde_json::Value::String(s.clone()),
        Json::Array(a) => serde_json::Value::Array(a.iter().map(json_to_value).collect()),
        Json::Object(m) => serde_json::Value::Object(
            m.iter().map(|(k, x)| (k.clone(), json_to_value(x))).collect(),
        ),
    }
}

/// What `serde_json::from_slice` makes of the bytes `b` as a JSON value:
/// the value, or the text of serde_json's error when they are not one JSON
/// text.
pub uninterp spec fn parsed_json_bytes(b: Seq<u8>) -> Result<JsonV, Seq<char>>;

/// What `serde_json::from_str` makes of the text `t` as a JSON value: the
/// value, or the text of serde_json's error when it is not one JSON text.
pub uninterp spec fn parsed_json_text(t: Seq<char>) -> Result<JsonV, Seq<char>>;

/// The compact JSON text that `serde_json::to_string` writes for `j`.
pub uninterp spec fn printed_json(j: JsonV) -> Seq<char>;

/// The view of a parse result: the value's view, or the error's text.
pub open spec fn parse_view(r: Result<Json, String>) -> Result<JsonV, Seq<char>> {
    match r {
        Ok(j) => Ok(j@),
        Err(m) => Err(m@),
    }
}

/// Parses the bytes `b` with `serde_json::from_slice` into a
/// `serde_json::Value`, converted into a [`Json`]; the error's `Display`
/// text when serde_json reports one. The result is named by
/// [`parsed_json_bytes`]: equal bytes give equal results.
#[verifier::external_body]
pub(crate) fn parse_json_bytes(b: &[u8]) -> (r: Result<Json, String>)
    ensures
        parse_view(r) == parsed_json_bytes(b@),
{
    serde_json::from_slice::<serde_json::Value>(b).map(json_from_value).map_err(|e| e.to_string())
}

/// Parses the text `t` with `serde_json::from_str` into a
/// `serde_json::Value`, converted into a [`Json`]; the error's `Display`
/// text when serde_json reports one. The result is named by
/// [`parsed_json_text`].
#[verifier::external_body]
pub(crate) fn parse_json_text(t: &str) -> (r: Result<Json, String>)
    ensures
        parse_view(r) == parsed_json_text(t@),
{
    serde_json::from_str::<serde_json::Value>(t).map(json_from_value).map_err(|e| e.to_string())
}

/// A digit's character is a decimal digit with that value.
proof fn lemma_digit_char(d: nat)
    requires
        d < 10,
    ensures
        is_digit(digit_char(d)),
        digit_char(d) as nat - '0' as nat == d,
        digit_char(d) != '-',
{
    assert(((d + 48) as u8) as nat == d + 48);
}

/// The decimal text of `n` is all digits and has the value `n`.
pub proof fn lemma_nat_text(n: nat)
    ensures
        nat_text(n).len() > 0,
        all_digits(nat_text(n)),
        digits_value(nat_text(n)) == n,
        nat_text(n)[0] != '-',
    decreases n,
{
    if n < 10 {
        lemma_digit_char(n);
        assert(seq![digit_char(n)].drop_last() =~= Seq::<char>::empty());
        assert(digits_value(Seq::<char>::empty()) == 0);
        assert(digits_value(seq![digit_char(n)]) == n);
    } else {
        lemma_nat_text(n / 10);
        lemma_digit_char(n % 10);
        let t = nat_text(n / 10).push(digit_char(n % 10));
        assert(t.drop_last() =~= nat_text(n / 10));
        assert(forall|i: int| 0 <= i < t.len() ==> is_digit(#[trigger] t[i])) by {
            assert forall|i: int| 0 <= i < t.len() implies is_digit(#[trigger] t[i]) by {
                if i < t.len() - 1 {
                    assert(t[i] == nat_text(n / 10)[i]);
                }
            }
        }
        assert(t[0] == nat_text(n / 10)[0]);
        assert(digits_value(t) == digits_value(nat_text(n / 10)) * 10 + (digit_char(n % 10) as nat
            - '0' as nat));
        assert(n == (n / 10) * 10 + n % 10);
    }
}

/// The decimal text of an `i64` reads back as that `i64`.
pub proof fn lemma_int_text_reads_back(i: int)
    requires
        i64::MIN <= i <= i64::MAX,
    ensures
        int_of_text(int_text(i)) == Some(i as i64),
        canonical_int_text(int_text(i)),
{
    if i < 0 {
        let n = (0 - i) as nat;
        lemma_nat_text(n);
        let t = int_text(i);
        assert(t.drop_first() =~= nat_text(n));
    } else {
        lemma_nat_text(i as nat);
    }
}

/// Whether serde_json reads the text `t`, and its UTF-8 bytes, as `j`.
pub open spec fn reads_back(t: Seq<char>, j: JsonV) -> bool {
    let ok: Result<JsonV, Seq<char>> = Ok(j);
    parsed_json_text(t) == ok && parsed_json_bytes(vstd::utf8::encode_utf8(t)) == ok
}

/// Whether the number text `t` is an integer as serde_json writes it and
/// reads it back as an integer: the decimal text of an integer from
/// -2^63 to 2^64 - 1, with no leading zero and no `-0`.
pub open spec fn canonical_int_text(t: Seq<char>) -> bool {
    exists|i: int| -0x8000_0000_0000_0000 <= i <= 0xffff_ffff_ffff_ffff && t == #[trigger] int_text(i)
}

/// Whether no two members of `ms` have the same key.
pub open spec fn keys_distinct(ms: Seq<MemberV>) -> bool {
    forall|a: int, b: int| 0 <= a < b < ms.len() ==> #[trigger] ms[a].key != #[trigger] ms[b].key
}

/// Whether `j` is a value that serde_json reads back from its own text
/// unchanged: its numbers are integers in canonical text, no object has
/// a key twice, and arrays and objects are nested at most `depth` deep.
pub open spec fn json_canonical(j: JsonV, depth: nat) -> bool
    decreases j, 1nat, 0nat,
{
    match j {
        JsonV::Number(t) => canonical_int_text(t),
        JsonV::Array(xs) => depth > 0 && items_canonical(j, xs.len(), (depth - 1) as nat),
        JsonV::Object(ms) => depth > 0 && keys_distinct(ms) && members_canonical(
            j,
            ms.len(),
            (depth - 1) as nat,
        ),
        _ => true,
    }
}

/// Whether the first `n` items of the array `j` are canonical.
pub open spec fn items_canonical(j: JsonV, n: nat, depth: nat) -> bool
    decreases j, 0nat, n,
{
    match j {
        JsonV::Array(xs) => if n == 0 || n > xs.len() {
            true
        } else {
            proof {
                lemma_item_decreases(j, n - 1);
            }
            items_canonical(j, (n - 1) as nat, depth) && json_canonical(xs[n - 1], depth)
        },
        _ => true,
    }
}

/// Whether the values of the first `n` members of the object `j` are
/// canonical.
pub open spec fn members_canonical(j: JsonV, n: nat, depth: nat) -> bool
    decreases j, 0nat, n,
{
    match j {
        JsonV::Object(ms) => if n == 0 || n > ms.len() {
            true
        } else {
            proof {
                assert(decreases_to!(j => ms));
                assert(decreases_to!(ms => ms[n - 1]));
                assert(decreases_to!(ms[n - 1] => ms[n - 1].value));
            }
            members_canonical(j, (n - 1) as nat, depth) && json_canonical(ms[n - 1].value, depth)
        },
        _ => true,
    }
}

/// An array whose first `n` items are canonical at `depth` has its first
/// `n` items canonical.
pub proof fn lemma_items_canonical(xs: Seq<JsonV>, n: nat, depth: nat)
    requires
        n <= xs.len(),
        forall|i: int| 0 <= i < n ==> json_canonical(#[trigger] xs[i], depth),
    ensures
        items_canonical(JsonV::Array(xs), n, depth),
    decreases n,
{
    if n > 0 {
        lemma_items_canonical(xs, (n - 1) as nat, depth);
    }
}

/// An object whose first `n` member values are canonical at `depth` has
/// its first `n` members canonical.
pub proof fn lemma_members_canonical(ms: Seq<MemberV>, n: nat, depth: nat)
    requires
        n <= ms.len(),
        forall|i: int| 0 <= i < n ==> json_canonical(#[trigger] ms[i].value, depth),
    ensures
        members_canonical(JsonV::Object(ms), n, depth),
    decreases n,
{
    if n > 0 {
        lemma_members_canonical(ms, (n - 1) as nat, depth);
    }
}

/// An object with distinct keys whose member values are canonical one
/// level down is canonical.
pub proof fn lemma_object_canonical(ms: Seq<MemberV>, depth: nat)
    requires
        depth > 0,
        keys_distinct(ms),
        forall|i: int| 0 <= i < ms.len() ==> json_canonical(#[trigger] ms[i].value, (depth - 1) as nat),
    ensures
        json_canonical(JsonV::Object(ms), depth),
{
    lemma_members_canonical(ms, ms.len(), (depth - 1) as nat);
}

/// An array whose items are canonical one level down is canonical.
pub proof fn lemma_array_canonical(xs: Seq<JsonV>, depth: nat)
    requires
        depth > 0,
        forall|i: int| 0 <= i < xs.len() ==> json_canonical(#[trigger] xs[i], (depth - 1) as nat),
    ensures
        json_canonical(JsonV::Array(xs), depth),
{
    lemma_items_canonical(xs, xs.len(), (depth - 1) as nat);
}

/// A character that compact JSON text can end with: a closing quote,
/// brace or bracket, the last letter of `true`, `false` or `null`, or a
/// digit.
pub open spec fn json_text_end(c: char) -> bool {
    c == '"' || c == '}' || c == ']' || c == 'e' || c == 'l' || ('0' <= c && c <= '9')
}

/// Writes `j`, converted into a `serde_json::Value`, with
/// `serde_json::to_string`, which cannot fail on a value whose object keys
/// are strings. The result is named by [`printed_json`]. serde_json reads
/// that text (and its UTF-8 bytes) back as the same value when the value is
/// canonical: integers in canonical text (parsed as `u64`/`i64`, written
/// back by `itoa`), keys distinct (the map keeps insertion order), and
/// nesting within the parser's recursion limit of 128. The compact writer
/// puts no white space outside strings, so the text ends with what closes
/// the value: a quote, a brace, a bracket, the last letter of `true`,
/// `false` or `null`, or a digit of a number.
#[verifier::external_body]
pub(crate) fn print_json(j: &Json) -> (r: String)
    ensures
        r@ == printed_json(j@),
        json_canonical(j@, 100) ==> reads_back(r@, j@),
        r@.len() > 0 && json_text_end(r@.last()),
{
    serde_json::to_string(&json_to_value(j)).unwrap_or_default()
}

} // verus!
