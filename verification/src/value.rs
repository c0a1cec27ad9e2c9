//! The value algebra: JSON-like data in which feature properties are held,
//! with its mathematical model and its encoding as JSON text.

use crate::decimal::{integer_literal_value, is_number_literal, Decimal};
use crate::text::{int_text, push_int, push_quoted, quoted, text_eq};
use vstd::prelude::*;
use vstd::string::StringExecFns;

verus! {

/// The model of a number: an integer, or the literal of any other number.
pub enum NumberView {
    Integer(int),
    Float(Seq<char>),
}

/// The model of a value. An object is the sequence of its members, each a
/// name and a value, in the order in which they were written.
pub enum ValueView {
    String(Seq<char>),
    Number(NumberView),
    Boolean(bool),
    Array(Seq<ValueView>),
    Null,
    Object(Seq<(Seq<char>, ValueView)>),
}

/// A number: a 64-bit signed integer, or a number in decimal notation.
pub enum NumericalValue {
    Integer(i64),
    Float(Decimal),
}

pub struct StringValue {
    pub value: String,
}

pub struct NumberValue {
    pub value: NumericalValue,
}

pub struct BooleanValue {
    pub value: bool,
}

pub struct ArrayValue {
    pub value: Vec<Value>,
}

pub struct NullValue {}

pub struct ObjectValue {
    pub value: Vec<ObjectProperty>,
}

pub struct ObjectProperty {
    pub name: String,
    pub value: Value,
}

pub enum Value {
    StringValue(StringValue),
    NumberValue(NumberValue),
    BooleanValue(BooleanValue),
    ArrayValue(ArrayValue),
    NullValue(NullValue),
    ObjectValue(ObjectValue),
}

/// The models of the values of `items`, in order.
pub open spec fn items_view(items: Seq<Value>) -> Seq<ValueView>
    decreases items,
{
    Seq::new(
        items.len(),
        |i: int|
            if 0 <= i < items.len() {
                items[i]@
            } else {
                ValueView::Null
            },
    )
}

/// The models of the members `members`, in order.
pub open spec fn members_view(members: Seq<ObjectProperty>) -> Seq<(Seq<char>, ValueView)>
    decreases members,
{
    Seq::new(
        members.len(),
        |i: int|
            if 0 <= i < members.len() {
                (members[i].name@, members[i].value@)
            } else {
                (Seq::empty(), ValueView::Null)
            },
    )
}

impl View for NumericalValue {
    type V = NumberView;

    open spec fn view(&self) -> NumberView {
        match self {
            NumericalValue::Integer(i) => NumberView::Integer(*i as int),
            NumericalValue::Float(d) => NumberView::Float(d@),
        }
    }
}

impl View for Value {
    type V = ValueView;

    open spec fn view(&self) -> ValueView
        decreases self,
    {
        match self {
            Value::StringValue(s) => ValueView::String(s.value@),
            Value::NumberValue(n) => ValueView::Number(n.value@),
            Value::BooleanValue(b) => ValueView::Boolean(b.value),
            Value::ArrayValue(a) => ValueView::Array(items_view(a.value@)),
            Value::NullValue(_) => ValueView::Null,
            Value::ObjectValue(o) => ValueView::Object(members_view(o.value@)),
        }
    }
}

impl View for StringValue {
    type V = Seq<char>;

    open spec fn view(&self) -> Seq<char> {
        self.value@
    }
}

impl View for NumberValue {
    type V = NumberView;

    open spec fn view(&self) -> NumberView {
        self.value@
    }
}

impl View for ArrayValue {
    type V = Seq<ValueView>;

    open spec fn view(&self) -> Seq<ValueView> {
        items_view(self.value@)
    }
}

impl View for ObjectValue {
    type V = Seq<(Seq<char>, ValueView)>;

    open spec fn view(&self) -> Seq<(Seq<char>, ValueView)> {
        members_view(self.value@)
    }
}

impl View for ObjectProperty {
    type V = (Seq<char>, ValueView);

    open spec fn view(&self) -> (Seq<char>, ValueView) {
        (self.name@, self.value@)
    }
}

/// The JSON text of a number: the numeral of an integer, the literal of
/// any other number.
pub open spec fn number_text(n: NumberView) -> Seq<char> {
    match n {
        NumberView::Integer(i) => int_text(i),
        NumberView::Float(literal) => literal,
    }
}

/// The JSON text of a value: compact, members and elements in their order,
/// separated by commas.
pub open spec fn json_text(v: ValueView) -> Seq<char>
    decreases v, 0nat,
{
    match v {
        ValueView::String(s) => quoted(s),
        ValueView::Number(n) => number_text(n),
        ValueView::Boolean(b) => if b {
            seq!['t', 'r', 'u', 'e']
        } else {
            seq!['f', 'a', 'l', 's', 'e']
        },
        ValueView::Array(items) => seq!['['] + items_text(items, items.len()) + seq![']'],
        ValueView::Null => seq!['n', 'u', 'l', 'l'],
        ValueView::Object(members) => seq!['{'] + members_text(members, members.len()) + seq!['}'],
    }
}

/// The JSON texts of the first `n` of `items`, separated by commas.
pub open spec fn items_text(items: Seq<ValueView>, n: nat) -> Seq<char>
    decreases items, n,
{
    if n == 0 || n > items.len() {
        Seq::empty()
    } else if n == 1 {
        json_text(items[0])
    } else {
        items_text(items, (n - 1) as nat) + seq![','] + json_text(items[n - 1])
    }
}

/// The JSON text of one member: its quoted name, a colon, its value.
pub open spec fn member_text(member: (Seq<char>, ValueView)) -> Seq<char>
    decreases member, 1nat,
{
    quoted(member.0) + seq![':'] + json_text(member.1)
}

/// The JSON texts of the first `n` of `members`, separated by commas.
pub open spec fn members_text(members: Seq<(Seq<char>, ValueView)>, n: nat) -> Seq<char>
    decreases members, n,
{
    if n == 0 || n > members.len() {
        Seq::empty()
    } else if n == 1 {
        member_text(members[0])
    } else {
        members_text(members, (n - 1) as nat) + seq![','] + member_text(members[n - 1])
    }
}

/// What the encoders below have in common.
pub trait ValueTrait {
    /// The JSON text that `to_geo_json` writes.
    spec fn geo_json(&self) -> Seq<char>;

    /// Writes the value as JSON text.
    fn to_geo_json(&self) -> (r: String)
        ensures
            r@ == self.geo_json(),
    ;
}

impl NumericalValue {
    /// Appends the number's JSON text to `out`.
    pub fn push_json(&self, out: &mut String)
        ensures
            final(out)@ == old(out)@ + number_text(self@),
    {
        match self {
            NumericalValue::Integer(i) => push_int(out, *i),
            NumericalValue::Float(d) => out.append(d.as_text()),
        }
    }
}

impl Value {
    /// Appends the value's JSON text to `out`.
    pub fn push_json(&self, out: &mut String)
        ensures
            final(out)@ == old(out)@ + json_text(self@),
        decreases self,
    {
        match self {
            Value::StringValue(s) => push_quoted(out, s.value.as_str()),
            Value::NumberValue(n) => n.value.push_json(out),
            Value::BooleanValue(b) => {
                if b.value {
                    out.push('t');
                    out.push('r');
                    out.push('u');
                    out.push('e');
                } else {
                    out.push('f');
                    out.push('a');
                    out.push('l');
                    out.push('s');
                    out.push('e');
                }
                assert(out@ == old(out)@ + json_text(self@));
            },
            Value::ArrayValue(a) => {
                assert(decreases_to!(*self => self->ArrayValue_0));
                push_items_json(&a.value, out)
            },
            Value::NullValue(_) => {
                out.push('n');
                out.push('u');
                out.push('l');
                out.push('l');
                assert(out@ == old(out)@ + json_text(self@));
            },
            Value::ObjectValue(o) => {
                assert(decreases_to!(*self => self->ObjectValue_0));
                push_members_json(&o.value, out)
            },
        }
    }
}

/// Appends to `out` the JSON text of the array of `items`.
pub fn push_items_json(items: &Vec<Value>, out: &mut String)
    ensures
        final(out)@ == old(out)@ + json_text(ValueView::Array(items_view(items@))),
    decreases items,
{
    out.push('[');
    let ghost views = items_view(items@);
    let mut i: usize = 0;
    while i < items.len()
        invariant
            0 <= i <= items.len(),
            views == items_view(items@),
            out@ == old(out)@.push('[') + items_text(views, i as nat),
        decreases items.len() - i,
    {
        if i > 0 {
            out.push(',');
        }
        let ghost before = out@;
        items[i].push_json(out);
        proof {
            assert(views[i as int] == items[i as int]@);
            let so_far = old(out)@.push('[') + items_text(views, i as nat);
            if i > 0 {
                assert(before == so_far.push(','));
                assert(so_far.push(',') + json_text(views[i as int]) == old(out)@.push('[') + (
                items_text(views, i as nat) + seq![','] + json_text(views[i as int])));
            } else {
                assert(so_far + json_text(views[0]) == old(out)@.push('[') + json_text(views[0]));
            }
        }
        i = i + 1;
    }
    out.push(']');
    assert(out@ == old(out)@ + json_text(ValueView::Array(views)));
}

/// Appends to `out` the JSON text of the object of `members`.
pub fn push_members_json(members: &Vec<ObjectProperty>, out: &mut String)
    ensures
        final(out)@ == old(out)@ + json_text(ValueView::Object(members_view(members@))),
    decreases members,
{
    out.push('{');
    let ghost views = members_view(members@);
    let mut i: usize = 0;
    while i < members.len()
        invariant
            0 <= i <= members.len(),
            views == members_view(members@),
            out@ == old(out)@.push('{') + members_text(views, i as nat),
        decreases members.len() - i,
    {
        if i > 0 {
            out.push(',');
        }
        let ghost before = out@;
        let member = &members[i];
        push_quoted(out, member.name.as_str());
        out.push(':');
        assert(decreases_to!(members@[i as int] => members@[i as int].value));
        member.value.push_json(out);
        proof {
            let view = views[i as int];
            assert(view == (members[i as int].name@, members[i as int].value@));
            assert(out@ == before + member_text(view));
            let so_far = old(out)@.push('{') + members_text(views, i as nat);
            if i > 0 {
                assert(before == so_far.push(','));
                assert(so_far.push(',') + member_text(view) == old(out)@.push('{') + (
                members_text(views, i as nat) + seq![','] + member_text(view)));
            } else {
                assert(so_far + member_text(view) == old(out)@.push('{') + member_text(view));
            }
        }
        i = i + 1;
    }
    out.push('}');
    assert(out@ == old(out)@ + json_text(ValueView::Object(views)));
}

impl StringValue {
    pub fn new(value: String) -> (r: Self)
        ensures
            r.value == value,
    {
        StringValue { value }
    }
}

impl NumberValue {
    pub fn new(value: NumericalValue) -> (r: Self)
        ensures
            r.value == value,
    {
        NumberValue { value }
    }

    /// The number that `d` writes: an integer where `d` is the numeral of a
    /// 64-bit signed integer, `d` itself otherwise.
    pub fn from_decimal(d: Decimal) -> (r: Self)
        ensures
            r@ == decimal_number(d@),
    {
        match d.to_integer() {
            Some(i) => NumberValue { value: NumericalValue::Integer(i) },
            None => NumberValue { value: NumericalValue::Float(d) },
        }
    }
}

/// The number that the literal `literal` writes.
pub open spec fn decimal_number(literal: Seq<char>) -> NumberView {
    match integer_literal_value(literal) {
        Some(i) => NumberView::Integer(i),
        None => NumberView::Float(literal),
    }
}

impl BooleanValue {
    pub fn new(value: bool) -> (r: Self)
        ensures
            r.value == value,
    {
        BooleanValue { value }
    }
}

impl ArrayValue {
    pub fn new(value: Vec<Value>) -> (r: Self)
        ensures
            r.value == value,
    {
        ArrayValue { value }
    }
}

impl NullValue {
    pub fn new() -> (r: Self) {
        NullValue {  }
    }
}

impl ObjectProperty {
    pub fn new(name: String, value: Value) -> (r: Self)
        ensures
            r.name == name,
            r.value == value,
    {
        ObjectProperty { name, value }
    }
}

impl ObjectValue {
    pub fn new(value: Vec<ObjectProperty>) -> (r: Self)
        ensures
            r.value == value,
    {
        ObjectValue { value }
    }

    /// The object without members.
    pub fn empty() -> (r: Self)
        ensures
            r@ == Seq::<(Seq<char>, ValueView)>::empty(),
    {
        let r = ObjectValue { value: Vec::new() };
        assert(r@ =~= Seq::<(Seq<char>, ValueView)>::empty());
        r
    }
}

impl ValueTrait for Value {
    open spec fn geo_json(&self) -> Seq<char> {
        json_text(self@)
    }

    fn to_geo_json(&self) -> (r: String) {
        let mut out = String::new();
        self.push_json(&mut out);
        assert(Seq::<char>::empty() + json_text(self@) == json_text(self@));
        out
    }
}

impl ValueTrait for StringValue {
    open spec fn geo_json(&self) -> Seq<char> {
        quoted(self.value@)
    }

    fn to_geo_json(&self) -> (r: String) {
        let mut out = String::new();
        push_quoted(&mut out, self.value.as_str());
        assert(Seq::<char>::empty() + quoted(self.value@) == quoted(self.value@));
        out
    }
}

impl ValueTrait for NumericalValue {
    open spec fn geo_json(&self) -> Seq<char> {
        number_text(self@)
    }

    fn to_geo_json(&self) -> (r: String) {
        let mut out = String::new();
        self.push_json(&mut out);
        assert(Seq::<char>::empty() + number_text(self@) == number_text(self@));
        out
    }
}

impl ValueTrait for NumberValue {
    open spec fn geo_json(&self) -> Seq<char> {
        number_text(self@)
    }

    fn to_geo_json(&self) -> (r: String) {
        self.value.to_geo_json()
    }
}

impl ValueTrait for BooleanValue {
    open spec fn geo_json(&self) -> Seq<char> {
        json_text(ValueView::Boolean(self.value))
    }

    fn to_geo_json(&self) -> (r: String) {
        let mut out = String::new();
        if self.value {
            out.push('t');
            out.push('r');
            out.push('u');
            out.push('e');
        } else {
            out.push('f');
            out.push('a');
            out.push('l');
            out.push('s');
            out.push('e');
        }
        assert(out@ == json_text(ValueView::Boolean(self.value)));
        out
    }
}

impl ValueTrait for ArrayValue {
    open spec fn geo_json(&self) -> Seq<char> {
        json_text(ValueView::Array(self@))
    }

    fn to_geo_json(&self) -> (r: String) {
        let mut out = String::new();
        push_items_json(&self.value, &mut out);
        assert(Seq::<char>::empty() + json_text(ValueView::Array(self@)) == json_text(
            ValueView::Array(self@),
        ));
        out
    }
}

impl ValueTrait for NullValue {
    open spec fn geo_json(&self) -> Seq<char> {
        json_text(ValueView::Null)
    }

    fn to_geo_json(&self) -> (r: String) {
        let mut out = String::new();
        out.push('n');
        out.push('u');
        out.push('l');
        out.push('l');
        assert(out@ == json_text(ValueView::Null));
        out
    }
}

impl ValueTrait for ObjectValue {
    open spec fn geo_json(&self) -> Seq<char> {
        json_text(ValueView::Object(self@))
    }

    fn to_geo_json(&self) -> (r: String) {
        let mut out = String::new();
        push_members_json(&self.value, &mut out);
        assert(Seq::<char>::empty() + json_text(ValueView::Object(self@)) == json_text(
            ValueView::Object(self@),
        ));
        out
    }
}

impl ValueTrait for ObjectProperty {
    open spec fn geo_json(&self) -> Seq<char> {
        member_text(self@)
    }

    fn to_geo_json(&self) -> (r: String) {
        let mut out = String::new();
        push_quoted(&mut out, self.name.as_str());
        out.push(':');
        self.value.push_json(&mut out);
        assert(out@ == member_text(self@));
        out
    }
}

impl Clone for NumericalValue {
    fn clone(&self) -> (r: Self)
        ensures
            r@ == self@,
    {
        match self {
            NumericalValue::Integer(i) => NumericalValue::Integer(*i),
            NumericalValue::Float(d) => NumericalValue::Float(d.clone()),
        }
    }
}

/// A copy of `items`, value by value.
pub fn clone_items(items: &Vec<Value>) -> (r: Vec<Value>)
    ensures
        items_view(r@) == items_view(items@),
    decreases items,
{
    let mut out: Vec<Value> = Vec::new();
    let mut i: usize = 0;
    while i < items.len()
        invariant
            0 <= i <= items.len(),
            out.len() == i,
            forall|k: int| 0 <= k < i ==> (#[trigger] out@[k])@ == items@[k]@,
        decreases items.len() - i,
    {
        out.push(items[i].clone());
        i = i + 1;
    }
    assert(items_view(out@) =~= items_view(items@));
    out
}

/// A copy of `members`, member by member.
pub fn clone_members(members: &Vec<ObjectProperty>) -> (r: Vec<ObjectProperty>)
    ensures
        members_view(r@) == members_view(members@),
    decreases members,
{
    let mut out: Vec<ObjectProperty> = Vec::new();
    let mut i: usize = 0;
    while i < members.len()
        invariant
            0 <= i <= members.len(),
            out.len() == i,
            forall|k: int| 0 <= k < i ==> (#[trigger] out@[k])@ == members@[k]@,
        decreases members.len() - i,
    {
        let member = &members[i];
        assert(decreases_to!(members@[i as int] => members@[i as int].value));
        out.push(ObjectProperty { name: member.name.clone(), value: member.value.clone() });
        i = i + 1;
    }
    assert(members_view(out@) =~= members_view(members@));
    out
}

impl Clone for Value {
    fn clone(&self) -> (r: Self)
        ensures
            r@ == self@,
        decreases self,
    {
        match self {
            Value::StringValue(s) => Value::StringValue(StringValue { value: s.value.clone() }),
            Value::NumberValue(n) => Value::NumberValue(NumberValue { value: n.value.clone() }),
            Value::BooleanValue(b) => Value::BooleanValue(BooleanValue { value: b.value }),
            Value::ArrayValue(a) => {
                assert(decreases_to!(*self => self->ArrayValue_0));
                Value::ArrayValue(ArrayValue { value: clone_items(&a.value) })
            },
            Value::NullValue(_) => Value::NullValue(NullValue {  }),
            Value::ObjectValue(o) => {
                assert(decreases_to!(*self => self->ObjectValue_0));
                Value::ObjectValue(ObjectValue { value: clone_members(&o.value) })
            },
        }
    }
}

impl Clone for ObjectValue {
    fn clone(&self) -> (r: Self)
        ensures
            r@ == self@,
    {
        ObjectValue { value: clone_members(&self.value) }
    }
}

impl Clone for ObjectProperty {
    fn clone(&self) -> (r: Self)
        ensures
            r@ == self@,
    {
        ObjectProperty { name: self.name.clone(), value: self.value.clone() }
    }
}

/// The index of the first of `members` named `name`, at or behind `from`.
pub open spec fn member_index_from(
    members: Seq<(Seq<char>, ValueView)>,
    name: Seq<char>,
    from: int,
) -> Option<int>
    decreases members.len() - from,
{
    if from < 0 || from >= members.len() {
        None
    } else if members[from].0 == name {
        Some(from)
    } else {
        member_index_from(members, name, from + 1)
    }
}

/// The value of the first of `members` named `name`.
pub open spec fn member_value(members: Seq<(Seq<char>, ValueView)>, name: Seq<char>) -> Option<
    ValueView,
> {
    match member_index_from(members, name, 0) {
        Some(i) => Some(members[i].1),
        None => None,
    }
}

/// The member named `name` of the object `v`; none where `v` is no object
/// or has no such member.
pub open spec fn field(v: ValueView, name: Seq<char>) -> Option<ValueView> {
    match v {
        ValueView::Object(members) => member_value(members, name),
        _ => None,
    }
}

impl ObjectValue {
    /// The index of the first member named `name`.
    pub fn position(&self, name: &str) -> (r: Option<usize>)
        ensures
            match r {
                Some(i) => i < self.value.len() && member_index_from(self@, name@, 0) == Some(
                    i as int,
                ),
                None => member_index_from(self@, name@, 0) is None,
            },
    {
        let mut i: usize = 0;
        while i < self.value.len()
            invariant
                0 <= i <= self.value.len(),
                member_index_from(self@, name@, 0) == member_index_from(self@, name@, i as int),
            decreases self.value.len() - i,
        {
            assert(self@[i as int].0 == self.value[i as int].name@);
            if text_eq(self.value[i].name.as_str(), name) {
                return Some(i);
            }
            i = i + 1;
        }
        None
    }

    /// The value of the first member named `name`.
    pub fn get(&self, name: &str) -> (r: Option<&Value>)
        ensures
            match r {
                Some(v) => member_value(self@, name@) == Some(v@) && exists|i: int|
                    0 <= i < self.value.len() && self.value[i].value == *v,
                None => member_value(self@, name@) is None,
            },
    {
        match self.position(name) {
            Some(i) => {
                assert(self@[i as int].1 == self.value[i as int].value@);
                Some(&self.value[i].value)
            },
            None => None,
        }
    }
}

impl Value {
    /// The member named `name`, where this value is an object that has one.
    pub fn member(&self, name: &str) -> (r: Option<&Value>)
        ensures
            match r {
                Some(v) => field(self@, name@) == Some(v@) && decreases_to!(*self => *v),
                None => field(self@, name@) is None,
            },
    {
        match self {
            Value::ObjectValue(o) => {
                let found = o.get(name);
                proof {
                    if let Some(v) = found {
                        let i = choose|i: int| 0 <= i < o.value.len() && o.value[i].value == *v;
                        assert(decreases_to!(*self => self->ObjectValue_0));
                        assert(decreases_to!(o.value@[i] => o.value@[i].value));
                    }
                }
                found
            },
            _ => None,
        }
    }
}

/// No two of `members` have the same name.
pub open spec fn names_distinct(members: Seq<(Seq<char>, ValueView)>) -> bool {
    forall|i: int, j: int|
        0 <= i < j < members.len() ==> (#[trigger] members[i]).0 != (#[trigger] members[j]).0
}

/// A number is valid if it is a 64-bit signed integer, or a number literal
/// that is not the numeral of one.
pub open spec fn valid_number(n: NumberView) -> bool {
    match n {
        NumberView::Integer(i) => i64::MIN <= i <= i64::MAX,
        NumberView::Float(literal) => is_number_literal(literal) && integer_literal_value(literal)
            is None,
    }
}

/// A value is valid if its numbers are valid and no object in it has two
/// members of the same name.
pub open spec fn valid_value(v: ValueView) -> bool
    decreases v,
{
    match v {
        ValueView::Number(n) => valid_number(n),
        ValueView::Array(items) => forall|i: int|
            0 <= i < items.len() ==> valid_value(#[trigger] items[i]),
        ValueView::Object(members) => names_distinct(members) && forall|i: int|
            0 <= i < members.len() ==> valid_value((#[trigger] members[i]).1),
        _ => true,
    }
}

impl Value {
    /// The string `s` as a value.
    pub fn string(s: String) -> (r: Value)
        ensures
            r@ == ValueView::String(s@),
    {
        Value::StringValue(StringValue { value: s })
    }

    /// The integer `i` as a value.
    pub fn integer(i: i64) -> (r: Value)
        ensures
            r@ == ValueView::Number(NumberView::Integer(i as int)),
    {
        Value::NumberValue(NumberValue { value: NumericalValue::Integer(i) })
    }

    /// The number that `d` writes, as a value.
    pub fn number(d: Decimal) -> (r: Value)
        ensures
            r@ == ValueView::Number(decimal_number(d@)),
    {
        Value::NumberValue(NumberValue::from_decimal(d))
    }

    /// The array of `items`.
    pub fn array(items: Vec<Value>) -> (r: Value)
        ensures
            r@ == ValueView::Array(items_view(items@)),
    {
        Value::ArrayValue(ArrayValue { value: items })
    }

    /// The object of `members`.
    pub fn object(members: Vec<ObjectProperty>) -> (r: Value)
        ensures
            r@ == ValueView::Object(members_view(members@)),
    {
        Value::ObjectValue(ObjectValue { value: members })
    }
}

/// Appends `value` to `items`.
pub fn push_item(items: &mut Vec<Value>, value: Value)
    ensures
        items_view(final(items)@) == items_view(old(items)@).push(value@),
{
    items.push(value);
    assert(items_view(items@) =~= items_view(old(items)@).push(value@));
}

/// Appends to `members` a member named `name` with the value `value`.
pub fn push_member(members: &mut Vec<ObjectProperty>, name: &str, value: Value)
    ensures
        members_view(final(members)@) == members_view(old(members)@).push((name@, value@)),
{
    members.push(ObjectProperty { name: name.to_owned(), value });
    assert(members_view(members@) =~= members_view(old(members)@).push((name@, value@)));
}

/// The views of no items and of no members are empty.
pub proof fn lemma_empty_views()
    ensures
        items_view(Seq::<Value>::empty()) == Seq::<ValueView>::empty(),
        members_view(Seq::<ObjectProperty>::empty()) == Seq::<(Seq<char>, ValueView)>::empty(),
{
    assert(items_view(Seq::<Value>::empty()) =~= Seq::<ValueView>::empty());
    assert(members_view(Seq::<ObjectProperty>::empty()) =~= Seq::<(Seq<char>, ValueView)>::empty());
}

/// A member that was found is a part of the members that were searched.
pub proof fn lemma_member_smaller(members: Seq<(Seq<char>, ValueView)>, name: Seq<char>, from: int)
    requires
        0 <= from,
        member_index_from(members, name, from) is Some,
    ensures
        from <= member_index_from(members, name, from)->0 < members.len(),
        members[member_index_from(members, name, from)->0].0 == name,
        decreases_to!(members => members[member_index_from(members, name, from)->0].1),
    decreases members.len() - from,
{
    if members[from].0 == name {
        assert(decreases_to!(members => members[from]));
        assert(decreases_to!(members[from] => members[from].1));
    } else {
        lemma_member_smaller(members, name, from + 1);
    }
}

/// A member of a value is a part of the value.
pub proof fn lemma_field_smaller(v: ValueView, name: Seq<char>)
    ensures
        field(v, name) matches Some(part) ==> decreases_to!(v => part),
{
    if let ValueView::Object(members) = v {
        if member_index_from(members, name, 0) is Some {
            lemma_member_smaller(members, name, 0);
            assert(decreases_to!(v => v->Object_0));
        }
    }
}

fn names_are_distinct(members: &Vec<ObjectProperty>) -> (r: bool)
    ensures
        r == names_distinct(members_view(members@)),
{
    let ghost views = members_view(members@);
    let mut j: usize = 0;
    while j < members.len()
        invariant
            0 <= j <= members.len(),
            views == members_view(members@),
            forall|a: int, b: int|
                0 <= a < b < j ==> (#[trigger] views[a]).0 != (#[trigger] views[b]).0,
        decreases members.len() - j,
    {
        let mut i: usize = 0;
        while i < j
            invariant
                0 <= i <= j < members.len(),
                views == members_view(members@),
                forall|a: int| 0 <= a < i ==> (#[trigger] views[a]).0 != views[j as int].0,
            decreases j - i,
        {
            assert(views[i as int].0 == members@[i as int].name@);
            assert(views[j as int].0 == members@[j as int].name@);
            if text_eq(members[i].name.as_str(), members[j].name.as_str()) {
                return false;
            }
            i = i + 1;
        }
        j = j + 1;
    }
    true
}

fn items_are_valid(items: &Vec<Value>) -> (r: bool)
    ensures
        r == valid_value(ValueView::Array(items_view(items@))),
    decreases items,
{
    let ghost views = items_view(items@);
    let mut i: usize = 0;
    while i < items.len()
        invariant
            0 <= i <= items.len(),
            views == items_view(items@),
            forall|k: int| 0 <= k < i ==> valid_value(#[trigger] views[k]),
        decreases items.len() - i,
    {
        assert(views[i as int] == items@[i as int]@);
        if !items[i].is_valid() {
            assert(!valid_value(ValueView::Array(views)->Array_0[i as int]));
            return false;
        }
        i = i + 1;
    }
    true
}

fn members_are_valid(members: &Vec<ObjectProperty>) -> (r: bool)
    ensures
        r == valid_value(ValueView::Object(members_view(members@))),
    decreases members,
{
    if !names_are_distinct(members) {
        return false;
    }
    let ghost views = members_view(members@);
    let mut i: usize = 0;
    while i < members.len()
        invariant
            0 <= i <= members.len(),
            views == members_view(members@),
            names_distinct(views),
            forall|k: int| 0 <= k < i ==> valid_value((#[trigger] views[k]).1),
        decreases members.len() - i,
    {
        assert(views[i as int].1 == members@[i as int].value@);
        assert(decreases_to!(members@[i as int] => members@[i as int].value));
        if !members[i].value.is_valid() {
            assert(!valid_value(views[i as int].1));
            return false;
        }
        i = i + 1;
    }
    true
}

impl Value {
    /// Whether the value is valid: its numbers are valid, and no object in
    /// it has two members of the same name.
    pub fn is_valid(&self) -> (r: bool)
        ensures
            r == valid_value(self@),
        decreases self,
    {
        match self {
            Value::NumberValue(n) => match &n.value {
                NumericalValue::Integer(_) => true,
                NumericalValue::Float(d) => {
                    d.is_literal();
                    d.to_integer().is_none()
                },
            },
            Value::ArrayValue(a) => {
                assert(decreases_to!(*self => self->ArrayValue_0));
                items_are_valid(&a.value)
            },
            Value::ObjectValue(o) => {
                assert(decreases_to!(*self => self->ObjectValue_0));
                members_are_valid(&o.value)
            },
            _ => true,
        }
    }
}

/// A member of a valid value is valid.
pub proof fn lemma_field_valid(v: ValueView, name: Seq<char>)
    requires
        valid_value(v),
    ensures
        field(v, name) matches Some(part) ==> valid_value(part),
{
    if let ValueView::Object(members) = v {
        if member_index_from(members, name, 0) is Some {
            lemma_member_smaller(members, name, 0);
        }
    }
}

} // verus!
