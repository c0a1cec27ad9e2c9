//! The encoding loses nothing: two valid values with the same JSON text
//! are the same value.

use crate::decimal::{
    digits_end, exponent_digits_start, integer_literal_value, is_number_literal,
    lemma_int_text_is_literal, lemma_integer_literal,
};
use crate::feature::{
    feature_value, id_members, lemma_feature_round_trip, valid_feature, FeatureView,
};
use crate::feature_collection::{
    collection_value, feature_values, lemma_collection_round_trip, valid_collection,
    FeatureCollectionView,
};
use crate::geometry::{
    geometry_value, lemma_geometry_round_trip, valid_geometry, GeometryView,
};
use crate::text::{
    escape_char, escape_text, hex_char, is_digit, lemma_int_text_injective, quoted,
};
use crate::value::{
    decimal_number, items_text, json_text, member_text, members_text, number_text, valid_number,
    valid_value, NumberView, ValueView,
};
use vstd::prelude::*;

verus! {

/// Whether `c` can stand in a number literal.
pub open spec fn is_number_char(c: char) -> bool {
    is_digit(c) || c == '-' || c == '+' || c == '.' || c == 'e' || c == 'E'
}

/// Whether `rest` can follow a value inside a JSON text: nothing, or a
/// text that begins with a comma or a closing bracket.
pub open spec fn is_closing(rest: Seq<char>) -> bool {
    rest.len() == 0 || rest[0] == ',' || rest[0] == ']' || rest[0] == '}'
}

/// A run of digits holds digits only, and ends inside the text.
proof fn lemma_digits_run(s: Seq<char>, from: int)
    requires
        0 <= from <= s.len(),
    ensures
        from <= digits_end(s, from) <= s.len(),
        forall|i: int| from <= i < digits_end(s, from) ==> is_digit(#[trigger] s[i]),
    decreases s.len() - from,
{
    if from < s.len() && is_digit(s[from]) {
        lemma_digits_run(s, from + 1);
    }
}

/// A number literal begins with a minus sign or a digit and holds only
/// characters that can stand in a number.
proof fn lemma_literal_chars(s: Seq<char>)
    requires
        is_number_literal(s),
    ensures
        s.len() > 0,
        s[0] == '-' || is_digit(s[0]),
        forall|i: int| 0 <= i < s.len() ==> is_number_char(#[trigger] s[i]),
{
    let start = if s.len() > 0 && s[0] == '-' {
        1int
    } else {
        0int
    };
    lemma_digits_run(s, start);
    let int_end = digits_end(s, start);
    let frac_end = if int_end < s.len() && s[int_end] == '.' {
        lemma_digits_run(s, int_end + 1);
        digits_end(s, int_end + 1)
    } else {
        int_end
    };
    let exp_start = exponent_digits_start(s, frac_end);
    if exp_start > frac_end {
        lemma_digits_run(s, exp_start);
    }
    assert(is_digit(s[start]));
    assert forall|i: int| 0 <= i < s.len() implies is_number_char(#[trigger] s[i]) by {
        if i < start {
        } else if i < int_end {
        } else if i < frac_end {
        } else if i < exp_start {
        } else {
        }
    }
}

/// Two valid numbers whose texts, each followed by something that can
/// follow a value, are the same text, are the same number, and so is what
/// follows them.
proof fn lemma_number_unique(n1: NumberView, n2: NumberView, r1: Seq<char>, r2: Seq<char>)
    requires
        valid_number(n1),
        valid_number(n2),
        is_closing(r1),
        is_closing(r2),
        number_text(n1) + r1 == number_text(n2) + r2,
    ensures
        n1 == n2,
        r1 == r2,
{
    let t1 = number_text(n1);
    let t2 = number_text(n2);
    lemma_literal(n1);
    lemma_literal(n2);
    lemma_literal_chars(t1);
    lemma_literal_chars(t2);
    let whole = t1 + r1;
    if t1.len() < t2.len() {
        assert(whole[t1.len() as int] == r1[0]);
        assert(whole[t1.len() as int] == t2[t1.len() as int]);
        assert(is_number_char(t2[t1.len() as int]));
    } else if t2.len() < t1.len() {
        assert((t2 + r2)[t2.len() as int] == r2[0]);
        assert(whole[t2.len() as int] == t1[t2.len() as int]);
        assert(is_number_char(t1[t2.len() as int]));
    }
    assert(t1 =~= whole.take(t1.len() as int));
    assert(t2 =~= whole.take(t2.len() as int));
    assert(r1 =~= whole.skip(t1.len() as int));
    assert(r2 =~= whole.skip(t2.len() as int));
    match (n1, n2) {
        (NumberView::Integer(i), NumberView::Integer(j)) => {
            lemma_int_text_injective(i, j);
        },
        (NumberView::Integer(i), NumberView::Float(l)) => {
            lemma_integer_literal(l, i);
        },
        (NumberView::Float(l), NumberView::Integer(j)) => {
            lemma_integer_literal(l, j);
        },
        (NumberView::Float(_), NumberView::Float(_)) => {},
    }
}

/// The text of a valid number is a number literal.
proof fn lemma_literal(n: NumberView)
    requires
        valid_number(n),
    ensures
        is_number_literal(number_text(n)),
{
    if let NumberView::Integer(i) = n {
        lemma_int_text_is_literal(i);
    }
}

/// The sixteen hexadecimal digits are sixteen characters.
proof fn lemma_hex_unique(a: int, b: int)
    requires
        0 <= a < 16,
        0 <= b < 16,
        hex_char(a) == hex_char(b),
    ensures
        a == b,
{
}

/// The escaped form of a character never begins with a quote, and tells
/// how long it is by its first two characters.
proof fn lemma_escape_shape(c: char)
    ensures
        escape_char(c).len() == 1 || escape_char(c).len() == 2 || escape_char(c).len() == 6,
        escape_char(c)[0] != '"',
        escape_char(c).len() == 1 <==> escape_char(c)[0] != '\\',
        escape_char(c).len() == 1 ==> escape_char(c)[0] == c,
        escape_char(c).len() == 6 <==> escape_char(c).len() > 1 && escape_char(c)[1] == 'u',
{
}

/// Escaped characters form a prefix code: where two of them, each followed
/// by some text, give the same text, they are the same character, and so is
/// what follows.
proof fn lemma_escape_char_unique(c1: char, c2: char, x: Seq<char>, y: Seq<char>)
    requires
        escape_char(c1) + x == escape_char(c2) + y,
    ensures
        c1 == c2,
        x == y,
{
    let e1 = escape_char(c1);
    let e2 = escape_char(c2);
    let whole = e1 + x;
    lemma_escape_shape(c1);
    lemma_escape_shape(c2);
    assert(whole[0] == e1[0] && whole[0] == e2[0]);
    if e1.len() > 1 {
        assert(e2.len() > 1);
        assert(whole[1] == e1[1]);
        assert((e2 + y)[1] == e2[1]);
        if e1.len() == 6 {
            assert(e2.len() == 6);
            assert(whole[4] == e1[4] && (e2 + y)[4] == e2[4]);
            assert(whole[5] == e1[5] && (e2 + y)[5] == e2[5]);
            lemma_hex_unique(c1 as int / 16, c2 as int / 16);
            lemma_hex_unique(c1 as int % 16, c2 as int % 16);
            assert(c1 as int == c2 as int);
        }
    }
    assert(c1 == c2);
    assert(x =~= whole.skip(e1.len() as int));
    assert(y =~= (e2 + y).skip(e2.len() as int));
}

/// The escaped form of a text is that of its first character, followed by
/// that of the rest.
proof fn lemma_escape_front(s: Seq<char>)
    requires
        s.len() > 0,
    ensures
        escape_text(s) == escape_char(s[0]) + escape_text(s.skip(1)),
    decreases s.len(),
{
    if s.len() == 1 {
        assert(s.drop_last() =~= Seq::<char>::empty());
        assert(s.skip(1) =~= Seq::<char>::empty());
        assert(escape_text(s.drop_last()) =~= Seq::<char>::empty());
        assert(escape_text(s) =~= escape_char(s[0]) + escape_text(s.skip(1)));
    } else {
        lemma_escape_front(s.drop_last());
        assert(s.drop_last().skip(1) =~= s.skip(1).drop_last());
        assert(s.drop_last()[0] == s[0]);
        assert(s.skip(1).last() == s.last());
        assert(escape_text(s) =~= escape_char(s[0]) + escape_text(s.skip(1)));
    }
}

/// Two texts whose escaped forms, each followed by a quote and some text,
/// give the same text, are the same text, and so is what follows.
proof fn lemma_escape_text_unique(s1: Seq<char>, s2: Seq<char>, r1: Seq<char>, r2: Seq<char>)
    requires
        escape_text(s1) + seq!['"'] + r1 == escape_text(s2) + seq!['"'] + r2,
    ensures
        s1 == s2,
        r1 == r2,
    decreases s1.len(),
{
    let left = escape_text(s1) + seq!['"'] + r1;
    let right = escape_text(s2) + seq!['"'] + r2;
    if s1.len() == 0 {
        assert(left[0] == '"');
        if s2.len() > 0 {
            lemma_escape_front(s2);
            lemma_escape_shape(s2[0]);
            assert(right[0] == escape_char(s2[0])[0]);
        }
        assert(r1 =~= left.skip(1));
        assert(r2 =~= right.skip(1));
        assert(s1 =~= s2);
    } else if s2.len() == 0 {
        assert(right[0] == '"');
        lemma_escape_front(s1);
        lemma_escape_shape(s1[0]);
        assert(left[0] == escape_char(s1[0])[0]);
    } else {
        lemma_escape_front(s1);
        lemma_escape_front(s2);
        let x = escape_text(s1.skip(1)) + seq!['"'] + r1;
        let y = escape_text(s2.skip(1)) + seq!['"'] + r2;
        assert(left =~= escape_char(s1[0]) + x);
        assert(right =~= escape_char(s2[0]) + y);
        lemma_escape_char_unique(s1[0], s2[0], x, y);
        lemma_escape_text_unique(s1.skip(1), s2.skip(1), r1, r2);
        assert(s1 =~= seq![s1[0]] + s1.skip(1));
        assert(s2 =~= seq![s2[0]] + s2.skip(1));
    }
}

/// Two texts whose quoted forms, each followed by some text, give the same
/// text, are the same text, and so is what follows.
proof fn lemma_quoted_unique(s1: Seq<char>, s2: Seq<char>, r1: Seq<char>, r2: Seq<char>)
    requires
        quoted(s1) + r1 == quoted(s2) + r2,
    ensures
        s1 == s2,
        r1 == r2,
{
    let left = quoted(s1) + r1;
    let right = quoted(s2) + r2;
    assert(left.skip(1) =~= escape_text(s1) + seq!['"'] + r1);
    assert(right.skip(1) =~= escape_text(s2) + seq!['"'] + r2);
    lemma_escape_text_unique(s1, s2, r1, r2);
}

/// The text of a valid value is not empty, and its first character tells
/// what kind of value it is.
proof fn lemma_first_char(v: ValueView)
    requires
        valid_value(v),
    ensures
        json_text(v).len() > 0,
        v is String <==> json_text(v)[0] == '"',
        v is Number <==> json_text(v)[0] == '-' || is_digit(json_text(v)[0]),
        v is Boolean <==> json_text(v)[0] == 't' || json_text(v)[0] == 'f',
        v is Null <==> json_text(v)[0] == 'n',
        v is Array <==> json_text(v)[0] == '[',
        v is Object <==> json_text(v)[0] == '{',
        !is_closing(json_text(v)),
{
    match v {
        ValueView::Number(n) => {
            lemma_literal(n);
            lemma_literal_chars(number_text(n));
        },
        _ => {},
    }
}

/// The texts of two or more items are the text of the first, a comma, and
/// the texts of the others.
proof fn lemma_items_front(items: Seq<ValueView>, n: nat)
    requires
        2 <= n <= items.len(),
    ensures
        items_text(items, n) == json_text(items[0]) + seq![','] + items_text(
            items.skip(1),
            (n - 1) as nat,
        ),
    decreases n,
{
    let rest = items.skip(1);
    assert(rest[n - 2] == items[n - 1]);
    if n == 2 {
        assert(rest[0] == items[1]);
        assert(items_text(items, 1) == json_text(items[0]));
        assert(items_text(rest, 1) == json_text(rest[0]));
    } else {
        lemma_items_front(items, (n - 1) as nat);
        assert(items_text(items, n) =~= json_text(items[0]) + seq![','] + items_text(
            rest,
            (n - 1) as nat,
        ));
    }
}

/// The texts of two or more members are the text of the first, a comma,
/// and the texts of the others.
proof fn lemma_members_front(members: Seq<(Seq<char>, ValueView)>, n: nat)
    requires
        2 <= n <= members.len(),
    ensures
        members_text(members, n) == member_text(members[0]) + seq![','] + members_text(
            members.skip(1),
            (n - 1) as nat,
        ),
    decreases n,
{
    let rest = members.skip(1);
    assert(rest[n - 2] == members[n - 1]);
    if n == 2 {
        assert(rest[0] == members[1]);
        assert(members_text(members, 1) == member_text(members[0]));
        assert(members_text(rest, 1) == member_text(rest[0]));
    } else {
        lemma_members_front(members, (n - 1) as nat);
        assert(members_text(members, n) =~= member_text(members[0]) + seq![','] + members_text(
            rest,
            (n - 1) as nat,
        ));
    }
}

/// What stands behind the item at `k`: the closing bracket and `rest`
/// behind the last item, a comma and the texts of the other items before
/// them otherwise.
spec fn behind_item(items: Seq<ValueView>, k: int, rest: Seq<char>) -> Seq<char> {
    if k + 1 >= items.len() {
        seq![']'] + rest
    } else {
        seq![','] + items_text(items.skip(k + 1), (items.len() - k - 1) as nat) + seq![']'] + rest
    }
}

/// What stands behind the member at `k`.
spec fn behind_member(members: Seq<(Seq<char>, ValueView)>, k: int, rest: Seq<char>) -> Seq<
    char,
> {
    if k + 1 >= members.len() {
        seq!['}'] + rest
    } else {
        seq![','] + members_text(members.skip(k + 1), (members.len() - k - 1) as nat) + seq!['}']
            + rest
    }
}

/// The texts of the items from `k` on, the closing bracket and `rest` are
/// the text of the item at `k` and what stands behind it.
proof fn lemma_items_split(items: Seq<ValueView>, k: int, rest: Seq<char>)
    requires
        0 <= k < items.len(),
    ensures
        items_text(items.skip(k), (items.len() - k) as nat) + seq![']'] + rest == json_text(
            items[k],
        ) + behind_item(items, k, rest),
{
    let tail = items.skip(k);
    assert(tail[0] == items[k]);
    if k + 1 < items.len() {
        lemma_items_front(tail, (items.len() - k) as nat);
        assert(tail.skip(1) =~= items.skip(k + 1));
        assert(items_text(tail, (items.len() - k) as nat) + seq![']'] + rest =~= json_text(
            items[k],
        ) + behind_item(items, k, rest));
    } else {
        assert(items_text(tail, 1) == json_text(tail[0]));
        assert(items_text(tail, 1) + seq![']'] + rest =~= json_text(items[k]) + behind_item(
            items,
            k,
            rest,
        ));
    }
}

/// The texts of the members from `k` on, the closing bracket and `rest`
/// are the text of the member at `k` and what stands behind it.
proof fn lemma_members_split(members: Seq<(Seq<char>, ValueView)>, k: int, rest: Seq<char>)
    requires
        0 <= k < members.len(),
    ensures
        members_text(members.skip(k), (members.len() - k) as nat) + seq!['}'] + rest
            == member_text(members[k]) + behind_member(members, k, rest),
{
    let tail = members.skip(k);
    assert(tail[0] == members[k]);
    if k + 1 < members.len() {
        lemma_members_front(tail, (members.len() - k) as nat);
        assert(tail.skip(1) =~= members.skip(k + 1));
        assert(members_text(tail, (members.len() - k) as nat) + seq!['}'] + rest =~= member_text(
            members[k],
        ) + behind_member(members, k, rest));
    } else {
        assert(members_text(tail, 1) == member_text(tail[0]));
        assert(members_text(tail, 1) + seq!['}'] + rest =~= member_text(members[k])
            + behind_member(members, k, rest));
    }
}

/// Two valid values whose texts, each followed by something that can
/// follow a value, are the same text, are the same value, and so is what
/// follows them.
pub proof fn lemma_value_unique(a: ValueView, b: ValueView, r1: Seq<char>, r2: Seq<char>)
    requires
        valid_value(a),
        valid_value(b),
        is_closing(r1),
        is_closing(r2),
        json_text(a) + r1 == json_text(b) + r2,
    ensures
        a == b,
        r1 == r2,
    decreases a, 0nat,
{
    let left = json_text(a) + r1;
    let right = json_text(b) + r2;
    lemma_first_char(a);
    lemma_first_char(b);
    assert(left[0] == json_text(a)[0]);
    assert(right[0] == json_text(b)[0]);
    match a {
        ValueView::String(s1) => {
            lemma_quoted_unique(s1, b->String_0, r1, r2);
        },
        ValueView::Number(n1) => {
            lemma_number_unique(n1, b->Number_0, r1, r2);
        },
        ValueView::Boolean(b1) => {
            assert(b1 == b->Boolean_0);
            assert(r1 =~= left.skip(json_text(a).len() as int));
            assert(r2 =~= right.skip(json_text(b).len() as int));
        },
        ValueView::Null => {
            assert(r1 =~= left.skip(4));
            assert(r2 =~= right.skip(4));
        },
        ValueView::Array(items1) => {
            let items2 = b->Array_0;
            assert(left.skip(1) =~= items_text(items1, items1.len()) + seq![']'] + r1);
            assert(right.skip(1) =~= items_text(items2, items2.len()) + seq![']'] + r2);
            assert(items1.skip(0) =~= items1);
            assert(items2.skip(0) =~= items2);
            assert(items1.take(0) =~= items2.take(0));
            lemma_items_unique(items1, items2, 0, r1, r2);
        },
        ValueView::Object(members1) => {
            let members2 = b->Object_0;
            assert(left.skip(1) =~= members_text(members1, members1.len()) + seq!['}'] + r1);
            assert(right.skip(1) =~= members_text(members2, members2.len()) + seq!['}'] + r2);
            assert(members1.skip(0) =~= members1);
            assert(members2.skip(0) =~= members2);
            assert(members1.take(0) =~= members2.take(0));
            lemma_members_unique(members1, members2, 0, r1, r2);
        },
    }
}

/// Where what stands behind the item at `k` is the same text in two
/// sequences, either it is the last item in both, and what follows is the
/// same, or in neither, and the texts from the next item on are the same.
proof fn lemma_behind_item(
    items1: Seq<ValueView>,
    items2: Seq<ValueView>,
    k: int,
    r1: Seq<char>,
    r2: Seq<char>,
)
    requires
        0 <= k < items1.len(),
        k < items2.len(),
        behind_item(items1, k, r1) == behind_item(items2, k, r2),
    ensures
        k + 1 >= items1.len() <==> k + 1 >= items2.len(),
        k + 1 >= items1.len() ==> r1 == r2,
        k + 1 < items1.len() ==> items_text(items1.skip(k + 1), (items1.len() - k - 1) as nat)
            + seq![']'] + r1 == items_text(items2.skip(k + 1), (items2.len() - k - 1) as nat)
            + seq![']'] + r2,
{
    let x = behind_item(items1, k, r1);
    let y = behind_item(items2, k, r2);
    if k + 1 >= items1.len() {
        assert(x[0] == ']');
        assert(r1 =~= x.skip(1));
        if k + 1 >= items2.len() {
            assert(r2 =~= y.skip(1));
        } else {
            assert(y[0] == ',');
        }
    } else {
        assert(x[0] == ',');
        assert(x.skip(1) =~= items_text(items1.skip(k + 1), (items1.len() - k - 1) as nat)
            + seq![']'] + r1);
        if k + 1 >= items2.len() {
            assert(y[0] == ']');
        } else {
            assert(y.skip(1) =~= items_text(items2.skip(k + 1), (items2.len() - k - 1) as nat)
                + seq![']'] + r2);
        }
    }
}

/// The same for members.
proof fn lemma_behind_member(
    members1: Seq<(Seq<char>, ValueView)>,
    members2: Seq<(Seq<char>, ValueView)>,
    k: int,
    r1: Seq<char>,
    r2: Seq<char>,
)
    requires
        0 <= k < members1.len(),
        k < members2.len(),
        behind_member(members1, k, r1) == behind_member(members2, k, r2),
    ensures
        k + 1 >= members1.len() <==> k + 1 >= members2.len(),
        k + 1 >= members1.len() ==> r1 == r2,
        k + 1 < members1.len() ==> members_text(
            members1.skip(k + 1),
            (members1.len() - k - 1) as nat,
        ) + seq!['}'] + r1 == members_text(members2.skip(k + 1), (members2.len() - k - 1) as nat)
            + seq!['}'] + r2,
{
    let x = behind_member(members1, k, r1);
    let y = behind_member(members2, k, r2);
    if k + 1 >= members1.len() {
        assert(x[0] == '}');
        assert(r1 =~= x.skip(1));
        if k + 1 >= members2.len() {
            assert(r2 =~= y.skip(1));
        } else {
            assert(y[0] == ',');
        }
    } else {
        assert(x[0] == ',');
        assert(x.skip(1) =~= members_text(members1.skip(k + 1), (members1.len() - k - 1) as nat)
            + seq!['}'] + r1);
        if k + 1 >= members2.len() {
            assert(y[0] == '}');
        } else {
            assert(y.skip(1) =~= members_text(
                members2.skip(k + 1),
                (members2.len() - k - 1) as nat,
            ) + seq!['}'] + r2);
        }
    }
}

/// Where the texts of two members, each followed by some text, are the same
/// text, the members have the same name, and the texts of their values,
/// each followed by that text, are the same text.
proof fn lemma_member_head(
    m1: (Seq<char>, ValueView),
    m2: (Seq<char>, ValueView),
    x: Seq<char>,
    y: Seq<char>,
)
    requires
        member_text(m1) + x == member_text(m2) + y,
    ensures
        m1.0 == m2.0,
        json_text(m1.1) + x == json_text(m2.1) + y,
{
    let after1 = seq![':'] + json_text(m1.1) + x;
    let after2 = seq![':'] + json_text(m2.1) + y;
    assert(member_text(m1) + x =~= quoted(m1.0) + after1);
    assert(member_text(m2) + y =~= quoted(m2.0) + after2);
    lemma_quoted_unique(m1.0, m2.0, after1, after2);
    assert(after1.skip(1) =~= json_text(m1.1) + x);
    assert(after2.skip(1) =~= json_text(m2.1) + y);
}

/// Two sequences that agree before `k` and at `k` agree before `k + 1`.
proof fn lemma_take_next<T>(s1: Seq<T>, s2: Seq<T>, k: int)
    requires
        0 <= k < s1.len(),
        k < s2.len(),
        s1.take(k) == s2.take(k),
        s1[k] == s2[k],
    ensures
        s1.take(k + 1) == s2.take(k + 1),
        k + 1 == s1.len() && k + 1 == s2.len() ==> s1 == s2,
{
    assert(s1.take(k + 1) =~= s1.take(k).push(s1[k]));
    assert(s2.take(k + 1) =~= s2.take(k).push(s2[k]));
    if k + 1 == s1.len() && k + 1 == s2.len() {
        assert(s1 =~= s1.take(k + 1));
        assert(s2 =~= s2.take(k + 1));
    }
}

/// Two sequences of valid items that agree before `k`, and whose texts from
/// `k` on, each followed by the closing bracket and some text, are the same
/// text, are the same sequence, and so is what follows.
proof fn lemma_items_unique(
    items1: Seq<ValueView>,
    items2: Seq<ValueView>,
    k: int,
    r1: Seq<char>,
    r2: Seq<char>,
)
    requires
        0 <= k <= items1.len(),
        k <= items2.len(),
        forall|i: int| 0 <= i < items1.len() ==> valid_value(#[trigger] items1[i]),
        forall|i: int| 0 <= i < items2.len() ==> valid_value(#[trigger] items2[i]),
        items1.take(k) == items2.take(k),
        items_text(items1.skip(k), (items1.len() - k) as nat) + seq![']'] + r1 == items_text(
            items2.skip(k),
            (items2.len() - k) as nat,
        ) + seq![']'] + r2,
    ensures
        items1 == items2,
        r1 == r2,
    decreases items1, items1.len() - k,
{
    let left = items_text(items1.skip(k), (items1.len() - k) as nat) + seq![']'] + r1;
    let right = items_text(items2.skip(k), (items2.len() - k) as nat) + seq![']'] + r2;
    if k == items1.len() && k == items2.len() {
        assert(r1 =~= left.skip(1));
        assert(r2 =~= right.skip(1));
        assert(items1 =~= items1.take(k));
        assert(items2 =~= items2.take(k));
    } else if k == items1.len() {
        lemma_items_split(items2, k, r2);
        lemma_first_char(items2[k]);
        assert(left[0] == ']');
        assert(right[0] == json_text(items2[k])[0]);
    } else if k == items2.len() {
        lemma_items_split(items1, k, r1);
        lemma_first_char(items1[k]);
        assert(right[0] == ']');
        assert(left[0] == json_text(items1[k])[0]);
    } else {
        lemma_items_split(items1, k, r1);
        lemma_items_split(items2, k, r2);
        lemma_value_unique(
            items1[k],
            items2[k],
            behind_item(items1, k, r1),
            behind_item(items2, k, r2),
        );
        lemma_behind_item(items1, items2, k, r1, r2);
        lemma_take_next(items1, items2, k);
        if k + 1 < items1.len() {
            lemma_items_unique(items1, items2, k + 1, r1, r2);
        }
    }
}

/// Two sequences of members with valid values that agree before `k`, and
/// whose texts from `k` on, each followed by the closing bracket and some
/// text, are the same text, are the same sequence, and so is what follows.
proof fn lemma_members_unique(
    members1: Seq<(Seq<char>, ValueView)>,
    members2: Seq<(Seq<char>, ValueView)>,
    k: int,
    r1: Seq<char>,
    r2: Seq<char>,
)
    requires
        0 <= k <= members1.len(),
        k <= members2.len(),
        forall|i: int| 0 <= i < members1.len() ==> valid_value((#[trigger] members1[i]).1),
        forall|i: int| 0 <= i < members2.len() ==> valid_value((#[trigger] members2[i]).1),
        members1.take(k) == members2.take(k),
        members_text(members1.skip(k), (members1.len() - k) as nat) + seq!['}'] + r1
            == members_text(members2.skip(k), (members2.len() - k) as nat) + seq!['}'] + r2,
    ensures
        members1 == members2,
        r1 == r2,
    decreases members1, members1.len() - k,
{
    let left = members_text(members1.skip(k), (members1.len() - k) as nat) + seq!['}'] + r1;
    let right = members_text(members2.skip(k), (members2.len() - k) as nat) + seq!['}'] + r2;
    if k == members1.len() && k == members2.len() {
        assert(r1 =~= left.skip(1));
        assert(r2 =~= right.skip(1));
        assert(members1 =~= members1.take(k));
        assert(members2 =~= members2.take(k));
    } else if k == members1.len() {
        lemma_members_split(members2, k, r2);
        assert(left[0] == '}');
        assert(right[0] == member_text(members2[k])[0]);
    } else if k == members2.len() {
        lemma_members_split(members1, k, r1);
        assert(right[0] == '}');
        assert(left[0] == member_text(members1[k])[0]);
    } else {
        lemma_members_split(members1, k, r1);
        lemma_members_split(members2, k, r2);
        let x = behind_member(members1, k, r1);
        let y = behind_member(members2, k, r2);
        lemma_member_head(members1[k], members2[k], x, y);
        assert(decreases_to!(members1 => members1[k]));
        assert(decreases_to!(members1[k] => members1[k].1));
        lemma_value_unique(members1[k].1, members2[k].1, x, y);
        lemma_behind_member(members1, members2, k, r1, r2);
        lemma_take_next(members1, members2, k);
        if k + 1 < members1.len() {
            lemma_members_unique(members1, members2, k + 1, r1, r2);
        }
    }
}

/// The encoding is injective: two valid values with the same JSON text are
/// the same value. A reader that gives back some value for every text, and
/// for the text of a valid value that value's text again, can therefore
/// only give back the value itself.
pub proof fn lemma_json_text_injective(a: ValueView, b: ValueView)
    requires
        valid_value(a),
        valid_value(b),
        json_text(a) == json_text(b),
    ensures
        a == b,
{
    let none = Seq::<char>::empty();
    assert(json_text(a) + none =~= json_text(b) + none);
    lemma_value_unique(a, b, none, none);
}

/// The number that a number literal writes is valid.
proof fn lemma_decimal_number_valid(literal: Seq<char>)
    requires
        is_number_literal(literal),
    ensures
        valid_number(decimal_number(literal)),
{
    if let Some(i) = integer_literal_value(literal) {
        lemma_integer_literal(literal, i);
    }
}

/// The GeoJSON value of a valid geometry is valid.
pub proof fn lemma_geometry_value_valid(g: GeometryView)
    requires
        valid_geometry(g),
    ensures
        valid_value(geometry_value(g)),
{
    reveal_strlit("type");
    reveal_strlit("coordinates");
    let p = g->Point_0;
    lemma_decimal_number_valid(p.longitude);
    lemma_decimal_number_valid(p.latitude);
    let members = geometry_value(g)->Object_0;
    assert("type"@.len() == 4 && "coordinates"@.len() == 11);
    assert(members[0].0 == "type"@ && members[1].0 == "coordinates"@);
    let items = members[1].1->Array_0;
    assert(forall|i: int| 0 <= i < items.len() ==> valid_value(#[trigger] items[i]));
    assert(valid_value(members[1].1));
    assert(valid_value(members[0].1));
}

/// The GeoJSON value of a valid feature is valid.
pub proof fn lemma_feature_value_valid(f: FeatureView)
    requires
        valid_feature(f),
    ensures
        valid_value(feature_value(f)),
{
    reveal_strlit("type");
    reveal_strlit("id");
    reveal_strlit("geometry");
    reveal_strlit("properties");
    lemma_geometry_value_valid(f.geometry);
    let members = feature_value(f)->Object_0;
    let k = id_members(f.id).len() as int;
    assert("type"@.len() == 4 && "id"@.len() == 2 && "geometry"@.len() == 8 && "properties"@.len()
        == 10);
    assert(members.len() == k + 3);
    assert(members[0] == ("type"@, ValueView::String("Feature"@)));
    assert(members[k + 1] == ("geometry"@, geometry_value(f.geometry)));
    assert(members[k + 2] == ("properties"@, ValueView::Object(f.properties)));
    if k == 1 {
        let number = NumberView::Integer(f.id->IntId_0.0 as int);
        assert(members[1] == ("id"@, ValueView::Number(number)));
    }
    assert forall|i: int| 0 <= i < members.len() implies valid_value((#[trigger] members[i]).1) by {
        if i == 0 {
        } else if i == k + 1 {
        } else if i == k + 2 {
        } else {
        }
    }
    assert forall|i: int, j: int| 0 <= i < j < members.len() implies (#[trigger] members[i]).0 != (
    #[trigger] members[j]).0 by {
        assert(members[i].0.len() != members[j].0.len());
    }
}

/// Two valid geometries with the same GeoJSON text are the same geometry.
pub proof fn lemma_geometry_text_injective(g1: GeometryView, g2: GeometryView)
    requires
        valid_geometry(g1),
        valid_geometry(g2),
        json_text(geometry_value(g1)) == json_text(geometry_value(g2)),
    ensures
        g1 == g2,
{
    lemma_geometry_value_valid(g1);
    lemma_geometry_value_valid(g2);
    lemma_json_text_injective(geometry_value(g1), geometry_value(g2));
    lemma_geometry_round_trip(g1);
    lemma_geometry_round_trip(g2);
}

/// Two valid features with the same GeoJSON text are the same feature.
pub proof fn lemma_feature_text_injective(f1: FeatureView, f2: FeatureView)
    requires
        valid_feature(f1),
        valid_feature(f2),
        json_text(feature_value(f1)) == json_text(feature_value(f2)),
    ensures
        f1 == f2,
{
    lemma_feature_value_valid(f1);
    lemma_feature_value_valid(f2);
    lemma_json_text_injective(feature_value(f1), feature_value(f2));
    lemma_feature_round_trip(f1);
    lemma_feature_round_trip(f2);
}

/// The GeoJSON value of a valid collection is valid.
pub proof fn lemma_collection_value_valid(c: FeatureCollectionView)
    requires
        valid_collection(c),
    ensures
        valid_value(collection_value(c)),
{
    reveal_strlit("type");
    reveal_strlit("id");
    reveal_strlit("label");
    reveal_strlit("properties");
    reveal_strlit("features");
    let members = collection_value(c)->Object_0;
    let k = id_members(c.id).len() as int;
    assert("type"@.len() == 4 && "id"@.len() == 2 && "label"@.len() == 5 && "properties"@.len()
        == 10 && "features"@.len() == 8);
    assert(members[0] == ("type"@, ValueView::String("FeatureCollection"@)));
    assert(members[k + 1] == ("label"@, ValueView::String(c.label)));
    assert(members[k + 2] == ("properties"@, ValueView::Object(c.properties)));
    if k == 1 {
        let number = NumberView::Integer(c.id->IntId_0.0 as int);
        assert(members[1] == ("id"@, ValueView::Number(number)));
    }
    if c.features.len() > 0 {
        assert(members.len() == k + 4);
        let values = feature_values(c.features);
        assert(members[k + 3] == ("features"@, ValueView::Array(values)));
        assert forall|i: int| 0 <= i < values.len() implies valid_value(#[trigger] values[i]) by {
            lemma_feature_value_valid(c.features[i]);
        }
        assert(valid_value(members[k + 3].1));
    } else {
        assert(members.len() == k + 3);
    }
    assert forall|i: int| 0 <= i < members.len() implies valid_value((#[trigger] members[i]).1) by {
        if i == 0 {
        } else if i == k + 1 {
        } else if i == k + 2 {
        } else if i == k + 3 {
        } else {
        }
    }
    assert forall|i: int, j: int| 0 <= i < j < members.len() implies (#[trigger] members[i]).0 != (
    #[trigger] members[j]).0 by {
        assert(members[i].0.len() != members[j].0.len());
    }
}

/// Two valid collections with the same GeoJSON text are the same
/// collection.
pub proof fn lemma_collection_text_injective(c1: FeatureCollectionView, c2: FeatureCollectionView)
    requires
        valid_collection(c1),
        valid_collection(c2),
        json_text(collection_value(c1)) == json_text(collection_value(c2)),
    ensures
        c1 == c2,
{
    lemma_collection_value_valid(c1);
    lemma_collection_value_valid(c2);
    lemma_json_text_injective(collection_value(c1), collection_value(c2));
    lemma_collection_round_trip(c1);
    lemma_collection_round_trip(c2);
}

} // verus!
