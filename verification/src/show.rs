//! How arguments are shown in the texts of errors.
use vstd::prelude::*;
use crate::item::{Item, MessageItem, items_view, lemma_items_view};
use crate::text::{debug_text, text_debug};

verus! {

/// A decimal digit.
pub open spec fn digit(n: nat) -> char {
    if n == 0 {
        '0'
    } else if n == 1 {
        '1'
    } else if n == 2 {
        '2'
    } else if n == 3 {
        '3'
    } else if n == 4 {
        '4'
    } else if n == 5 {
        '5'
    } else if n == 6 {
        '6'
    } else if n == 7 {
        '7'
    } else if n == 8 {
        '8'
    } else {
        '9'
    }
}

/// The decimal digits of a number, without leading zeros.
pub open spec fn digits(n: nat) -> Seq<char>
    decreases n,
{
    if n < 10 {
        seq![digit(n)]
    } else {
        digits(n / 10).push(digit(n % 10))
    }
}

/// A number in decimal notation.
pub open spec fn decimal(n: int) -> Seq<char> {
    if n < 0 {
        "-"@ + digits((-n) as nat)
    } else {
        digits(n as nat)
    }
}

/// `true` or `false`.
pub open spec fn truth(b: bool) -> Seq<char> {
    if b {
        "true"@
    } else {
        "false"@
    }
}

/// A value as it is shown: the name of its kind, and in brackets what it holds. A double is
/// shown by its text.
pub open spec fn shown(i: Item) -> Seq<char>
    decreases i,
{
    match i {
        Item::Array(v, s) => "Array(["@ + shown_list(v) + "], "@ + text_debug(s) + ")"@,
        Item::Struct(v) => "Struct(["@ + shown_list(v) + "])"@,
        Item::Variant(x) => "Variant("@ + shown(*x) + ")"@,
        Item::DictEntry(k, x) => "DictEntry("@ + shown(*k) + ", "@ + shown(*x) + ")"@,
        Item::ObjectPath(p) => "ObjectPath(Path("@ + text_debug(p) + "))"@,
        Item::Str(s) => "Str("@ + text_debug(s) + ")"@,
        Item::Bool(x) => "Bool("@ + truth(x) + ")"@,
        Item::Byte(x) => "Byte("@ + decimal(x as int) + ")"@,
        Item::Int16(x) => "Int16("@ + decimal(x as int) + ")"@,
        Item::Int32(x) => "Int32("@ + decimal(x as int) + ")"@,
        Item::Int64(x) => "Int64("@ + decimal(x as int) + ")"@,
        Item::UInt16(x) => "UInt16("@ + decimal(x as int) + ")"@,
        Item::UInt32(x) => "UInt32("@ + decimal(x as int) + ")"@,
        Item::UInt64(x) => "UInt64("@ + decimal(x as int) + ")"@,
        Item::Double(_, s) => "Double("@ + s + ")"@,
        Item::UnixFd(x) => "UnixFd("@ + decimal(x as int) + ")"@,
    }
}

/// Values as they are shown, with commas between them.
pub open spec fn shown_list(v: Seq<Item>) -> Seq<char>
    decreases v,
{
    if v.len() == 0 {
        Seq::empty()
    } else if v.len() == 1 {
        shown(v[0])
    } else {
        shown_list(v.drop_last()) + ", "@ + shown(v.last())
    }
}

/// A decimal digit.
fn show_digit(n: u64) -> (r: &'static str)
    requires
        n < 10,
    ensures
        r@ == seq![digit(n as nat)],
{
    proof {
        reveal_strlit("0");
        reveal_strlit("1");
        reveal_strlit("2");
        reveal_strlit("3");
        reveal_strlit("4");
        reveal_strlit("5");
        reveal_strlit("6");
        reveal_strlit("7");
        reveal_strlit("8");
        reveal_strlit("9");
    }
    match n {
        0 => "0",
        1 => "1",
        2 => "2",
        3 => "3",
        4 => "4",
        5 => "5",
        6 => "6",
        7 => "7",
        8 => "8",
        _ => "9",
    }
}

/// The decimal digits of a number, without leading zeros.
fn show_digits(n: u64) -> (r: String)
    ensures
        r@ == digits(n as nat),
    decreases n,
{
    if n < 10 {
        show_digit(n).to_owned()
    } else {
        let mut text = show_digits(n / 10);
        text.append(show_digit(n % 10));
        assert(text@ =~= digits(n as nat));
        text
    }
}

/// A number in decimal notation.
fn show_number(n: i64) -> (r: String)
    ensures
        r@ == decimal(n as int),
{
    if n < 0 {
        let mut text = "-".to_owned();
        let size: u64 = (-(n as i128)) as u64;
        text.append(show_digits(size).as_str());
        text
    } else {
        show_digits(n as u64)
    }
}

/// The name of a kind, and in brackets what a value of it holds.
fn show_as(kind: &str, held: String) -> (r: String)
    ensures
        r@ == kind@ + held@ + ")"@,
{
    let mut text = kind.to_owned();
    text.append(held.as_str());
    text.append(")");
    text
}

impl MessageItem {
    /// The argument as it is shown.
    pub fn shown(&self) -> (r: String)
        ensures
            r@ == shown(self@),
        decreases self,
    {
        match self {
            MessageItem::Array(v, s) => {
                let mut text = show_list(v);
                text.append("], ");
                text.append(debug_text(s.as_str()).as_str());
                let r = show_as("Array([", text);
                assert(r@ =~= shown(self@));
                r
            },
            MessageItem::Struct(v) => {
                let mut text = "Struct([".to_owned();
                text.append(show_list(v).as_str());
                text.append("])");
                text
            },
            MessageItem::Variant(x) => show_as("Variant(", x.shown()),
            MessageItem::DictEntry(k, x) => {
                let mut text = "DictEntry(".to_owned();
                text.append(k.shown().as_str());
                text.append(", ");
                text.append(x.shown().as_str());
                text.append(")");
                text
            },
            MessageItem::ObjectPath(p) => {
                let mut text = "ObjectPath(Path(".to_owned();
                text.append(debug_text(p.as_str()).as_str());
                text.append("))");
                text
            },
            MessageItem::Str(s) => show_as("Str(", debug_text(s.as_str())),
            MessageItem::Bool(x) => show_as(
                "Bool(",
                if *x {
                    "true".to_owned()
                } else {
                    "false".to_owned()
                },
            ),
            MessageItem::Byte(x) => show_as("Byte(", show_digits(*x as u64)),
            MessageItem::Int16(x) => show_as("Int16(", show_number(*x as i64)),
            MessageItem::Int32(x) => show_as("Int32(", show_number(*x as i64)),
            MessageItem::Int64(x) => show_as("Int64(", show_number(*x)),
            MessageItem::UInt16(x) => show_as("UInt16(", show_digits(*x as u64)),
            MessageItem::UInt32(x) => show_as("UInt32(", show_digits(*x as u64)),
            MessageItem::UInt64(x) => show_as("UInt64(", show_digits(*x)),
            MessageItem::Double(_, s) => show_as("Double(", s.clone()),
            MessageItem::UnixFd(x) => show_as("UnixFd(", show_number(*x as i64)),
        }
    }
}

/// Arguments as they are shown, with commas between them.
fn show_list(v: &Vec<MessageItem>) -> (r: String)
    ensures
        r@ == shown_list(items_view(v@)),
    decreases v,
{
    let mut text = String::new();
    let mut i: usize = 0;
    let ghost views = items_view(v@);
    assert(views.take(0) =~= Seq::<Item>::empty());
    proof {
        lemma_items_view(v@);
    }
    while i < v.len()
        invariant
            i <= v.len(),
            views == items_view(v@),
            views.len() == v.len(),
            forall|k: int| 0 <= k < v.len() ==> #[trigger] views[k] == v@[k]@,
            text@ == shown_list(views.take(i as int)),
        decreases v.len() - i,
    {
        if i > 0 {
            text.append(", ");
        }
        text.append(v[i].shown().as_str());
        proof {
            let t = views.take(i + 1);
            assert(t.drop_last() =~= views.take(i as int));
            assert(t.last() == views[i as int]);
            assert(text@ =~= shown_list(t));
        }
        i = i + 1;
    }
    assert(views.take(i as int) =~= views);
    text
}

} // verus!
