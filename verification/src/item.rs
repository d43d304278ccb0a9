//! Message arguments: the values that D-Bus messages carry.
use vstd::prelude::*;
use crate::names::Path;
use crate::text::has_char;

verus! {

/// One argument of a message. A double is held as its bits and as the text that shows it, a
/// file descriptor as its number.
#[derive(Debug, PartialEq, Eq)]
pub enum MessageItem {
    /// The elements of an array, and the signature of one element.
    Array(Vec<MessageItem>, String),
    Struct(Vec<MessageItem>),
    Variant(Box<MessageItem>),
    DictEntry(Box<MessageItem>, Box<MessageItem>),
    ObjectPath(Path),
    Str(String),
    Bool(bool),
    Byte(u8),
    Int16(i16),
    Int32(i32),
    Int64(i64),
    UInt16(u16),
    UInt32(u32),
    UInt64(u64),
    Double(u64, String),
    UnixFd(i32),
}

/// The mathematical value of a `MessageItem`.
pub enum Item {
    Array(Seq<Item>, Seq<char>),
    Struct(Seq<Item>),
    Variant(Box<Item>),
    DictEntry(Box<Item>, Box<Item>),
    ObjectPath(Seq<char>),
    Str(Seq<char>),
    Bool(bool),
    Byte(u8),
    Int16(i16),
    Int32(i32),
    Int64(i64),
    UInt16(u16),
    UInt32(u32),
    UInt64(u64),
    Double(u64, Seq<char>),
    UnixFd(i32),
}

/// The value of one argument.
pub open spec fn item_view(i: MessageItem) -> Item
    decreases i,
{
    match i {
        MessageItem::Array(v, s) => Item::Array(items_view(v@), s@),
        MessageItem::Struct(v) => Item::Struct(items_view(v@)),
        MessageItem::Variant(x) => Item::Variant(Box::new(item_view(*x))),
        MessageItem::DictEntry(k, x) => Item::DictEntry(
            Box::new(item_view(*k)),
            Box::new(item_view(*x)),
        ),
        MessageItem::ObjectPath(p) => Item::ObjectPath(p@),
        MessageItem::Str(s) => Item::Str(s@),
        MessageItem::Bool(x) => Item::Bool(x),
        MessageItem::Byte(x) => Item::Byte(x),
        MessageItem::Int16(x) => Item::Int16(x),
        MessageItem::Int32(x) => Item::Int32(x),
        MessageItem::Int64(x) => Item::Int64(x),
        MessageItem::UInt16(x) => Item::UInt16(x),
        MessageItem::UInt32(x) => Item::UInt32(x),
        MessageItem::UInt64(x) => Item::UInt64(x),
        MessageItem::Double(x, s) => Item::Double(x, s@),
        MessageItem::UnixFd(x) => Item::UnixFd(x),
    }
}

/// The values of a list of arguments.
pub open spec fn items_view(s: Seq<MessageItem>) -> Seq<Item>
    decreases s,
{
    if s.len() == 0 {
        Seq::empty()
    } else {
        items_view(s.drop_last()).push(item_view(s.last()))
    }
}

impl View for MessageItem {
    type V = Item;

    open spec fn view(&self) -> Item {
        item_view(*self)
    }
}

/// `items_view` works element by element.
pub broadcast proof fn lemma_items_view(s: Seq<MessageItem>)
    ensures
        #![trigger items_view(s)]
        items_view(s).len() == s.len(),
        forall|i: int| 0 <= i < s.len() ==> #[trigger] items_view(s)[i] == s[i]@,
    decreases s.len(),
{
    if s.len() > 0 {
        lemma_items_view(s.drop_last());
    }
}

/// `items_view` of one more element.
pub proof fn lemma_items_push(s: Seq<MessageItem>, x: MessageItem)
    ensures
        items_view(s.push(x)) == items_view(s).push(x@),
{
    assert(s.push(x).drop_last() =~= s);
}

/// The signature of a value's type.
pub open spec fn type_sig(i: Item) -> Seq<char>
    decreases i,
{
    match i {
        Item::Array(_, s) => "a"@ + s,
        Item::Struct(v) => "("@ + type_sigs(v) + ")"@,
        Item::Variant(_) => "v"@,
        Item::DictEntry(k, x) => "{"@ + type_sig(*k) + type_sig(*x) + "}"@,
        Item::ObjectPath(_) => "o"@,
        Item::Str(_) => "s"@,
        Item::Bool(_) => "b"@,
        Item::Byte(_) => "y"@,
        Item::Int16(_) => "n"@,
        Item::Int32(_) => "i"@,
        Item::Int64(_) => "x"@,
        Item::UInt16(_) => "q"@,
        Item::UInt32(_) => "u"@,
        Item::UInt64(_) => "t"@,
        Item::Double(..) => "d"@,
        Item::UnixFd(_) => "h"@,
    }
}

/// The signatures of a list of values, one behind the other.
pub open spec fn type_sigs(v: Seq<Item>) -> Seq<char>
    decreases v,
{
    if v.len() == 0 {
        Seq::empty()
    } else {
        type_sigs(v.drop_last()) + type_sig(v.last())
    }
}

/// Every array in the value holds elements of the type that it declares.
pub open spec fn well_typed(i: Item) -> bool
    decreases i,
{
    match i {
        Item::Array(v, s) => forall|k: int|
            0 <= k < v.len() ==> well_typed(#[trigger] v[k]) && type_sig(v[k]) == s,
        Item::Struct(v) => forall|k: int| 0 <= k < v.len() ==> well_typed(#[trigger] v[k]),
        Item::Variant(x) => well_typed(*x),
        Item::DictEntry(k, x) => well_typed(*k) && well_typed(*x),
        _ => true,
    }
}

/// No text in the value holds a NUL. (An object path never does.)
pub open spec fn nul_free(i: Item) -> bool
    decreases i,
{
    match i {
        Item::Array(v, s) => !s.contains('\0') && all_nul_free(v),
        Item::Struct(v) => all_nul_free(v),
        Item::Variant(x) => nul_free(*x),
        Item::DictEntry(k, x) => nul_free(*k) && nul_free(*x),
        Item::Str(s) => !s.contains('\0'),
        Item::Double(_, s) => !s.contains('\0'),
        _ => true,
    }
}

/// No text in the values holds a NUL.
pub open spec fn all_nul_free(v: Seq<Item>) -> bool
    decreases v,
{
    v.len() == 0 || all_nul_free(v.drop_last()) && nul_free(v.last())
}

/// Where no text in some values holds a NUL, none in the first of them does.
pub proof fn lemma_nul_free_take(v: Seq<Item>, n: int)
    requires
        0 <= n <= v.len(),
        all_nul_free(v),
    ensures
        all_nul_free(v.take(n)),
    decreases v.len() - n,
{
    if n == v.len() {
        assert(v.take(n) =~= v);
    } else {
        lemma_nul_free_take(v, n + 1);
        assert(v.take(n + 1).drop_last() =~= v.take(n));
    }
}

impl Clone for MessageItem {
    fn clone(&self) -> (r: Self)
        ensures
            r@ == self@,
        decreases self,
    {
        match self {
            MessageItem::Array(v, s) => MessageItem::Array(copy_items(v), s.clone()),
            MessageItem::Struct(v) => MessageItem::Struct(copy_items(v)),
            MessageItem::Variant(x) => MessageItem::Variant(Box::new((&**x).clone())),
            MessageItem::DictEntry(k, x) => MessageItem::DictEntry(
                Box::new((&**k).clone()),
                Box::new((&**x).clone()),
            ),
            MessageItem::ObjectPath(p) => MessageItem::ObjectPath(p.clone()),
            MessageItem::Str(s) => MessageItem::Str(s.clone()),
            MessageItem::Bool(x) => MessageItem::Bool(*x),
            MessageItem::Byte(x) => MessageItem::Byte(*x),
            MessageItem::Int16(x) => MessageItem::Int16(*x),
            MessageItem::Int32(x) => MessageItem::Int32(*x),
            MessageItem::Int64(x) => MessageItem::Int64(*x),
            MessageItem::UInt16(x) => MessageItem::UInt16(*x),
            MessageItem::UInt32(x) => MessageItem::UInt32(*x),
            MessageItem::UInt64(x) => MessageItem::UInt64(*x),
            MessageItem::Double(x, s) => MessageItem::Double(*x, s.clone()),
            MessageItem::UnixFd(x) => MessageItem::UnixFd(*x),
        }
    }
}

/// Copies a list of arguments.
pub fn copy_items(v: &Vec<MessageItem>) -> (r: Vec<MessageItem>)
    ensures
        items_view(r@) == items_view(v@),
    decreases v,
{
    let mut out: Vec<MessageItem> = Vec::new();
    let mut i: usize = 0;
    assert(v@.take(0) =~= Seq::<MessageItem>::empty());
    while i < v.len()
        invariant
            i <= v.len(),
            items_view(out@) == items_view(v@.take(i as int)),
        decreases v.len() - i,
    {
        let x = v[i].clone();
        proof {
            lemma_items_push(out@, x);
            lemma_items_push(v@.take(i as int), v@[i as int]);
            assert(v@.take(i + 1) =~= v@.take(i as int).push(v@[i as int]));
        }
        out.push(x);
        i = i + 1;
    }
    assert(v@.take(i as int) =~= v@);
    out
}

impl MessageItem {
    /// The signature of the argument's type.
    pub fn type_sig(&self) -> (r: String)
        ensures
            r@ == type_sig(self@),
        decreases self,
    {
        match self {
            MessageItem::Array(_, s) => {
                let mut text = "a".to_owned();
                text.append(s.as_str());
                text
            },
            MessageItem::Struct(v) => {
                let mut text = "(".to_owned();
                text.append(item_sigs(v).as_str());
                text.append(")");
                text
            },
            MessageItem::Variant(_) => "v".to_owned(),
            MessageItem::DictEntry(k, x) => {
                let mut text = "{".to_owned();
                text.append(k.type_sig().as_str());
                text.append(x.type_sig().as_str());
                text.append("}");
                text
            },
            MessageItem::ObjectPath(_) => "o".to_owned(),
            MessageItem::Str(_) => "s".to_owned(),
            MessageItem::Bool(_) => "b".to_owned(),
            MessageItem::Byte(_) => "y".to_owned(),
            MessageItem::Int16(_) => "n".to_owned(),
            MessageItem::Int32(_) => "i".to_owned(),
            MessageItem::Int64(_) => "x".to_owned(),
            MessageItem::UInt16(_) => "q".to_owned(),
            MessageItem::UInt32(_) => "u".to_owned(),
            MessageItem::UInt64(_) => "t".to_owned(),
            MessageItem::Double(..) => "d".to_owned(),
            MessageItem::UnixFd(_) => "h".to_owned(),
        }
    }
}

impl MessageItem {
    /// Whether no text in the argument holds a NUL.
    pub fn nul_free(&self) -> (r: bool)
        ensures
            r == nul_free(self@),
        decreases self,
    {
        match self {
            MessageItem::Array(v, s) => !has_char(s.as_str(), '\0') && items_nul_free(v),
            MessageItem::Struct(v) => items_nul_free(v),
            MessageItem::Variant(x) => x.nul_free(),
            MessageItem::DictEntry(k, x) => k.nul_free() && x.nul_free(),
            MessageItem::Str(s) => !has_char(s.as_str(), '\0'),
            MessageItem::Double(_, s) => !has_char(s.as_str(), '\0'),
            _ => true,
        }
    }
}

/// Whether no text in a list of arguments holds a NUL.
pub(crate) fn items_nul_free(v: &Vec<MessageItem>) -> (r: bool)
    ensures
        r == all_nul_free(items_view(v@)),
    decreases v,
{
    let mut i: usize = 0;
    let ghost views = items_view(v@);
    assert(views.take(0) =~= Seq::<Item>::empty());
    proof {
        lemma_items_view(v@);
    }
    while i < v.len()
        invariant
            i <= v.len(),
            views == items_view(v@),
            views.len() == v.len(),
            forall|k: int| 0 <= k < v.len() ==> #[trigger] views[k] == v@[k]@,
            all_nul_free(views.take(i as int)),
        decreases v.len() - i,
    {
        proof {
            assert(views.take(i + 1).drop_last() =~= views.take(i as int));
            assert(views.take(i + 1).last() == views[i as int]);
        }
        if !v[i].nul_free() {
            proof {
                if all_nul_free(views) {
                    lemma_nul_free_take(views, i + 1);
                }
            }
            return false;
        }
        i = i + 1;
    }
    assert(views.take(i as int) =~= views);
    true
}

/// The signatures of a list of arguments, one behind the other.
fn item_sigs(v: &Vec<MessageItem>) -> (r: String)
    ensures
        r@ == type_sigs(items_view(v@)),
    decreases v,
{
    let mut text = String::new();
    let mut i: usize = 0;
    let ghost views = items_view(v@);
    assert(views.take(0) =~= Seq::<Item>::empty());
    proof {
        lemma_items_view(v@);
    }
    while i < v.len()
        invariant
            i <= v.len(),
            views == items_view(v@),
            views.len() == v.len(),
            forall|k: int| 0 <= k < v.len() ==> #[trigger] views[k] == v@[k]@,
            text@ == type_sigs(views.take(i as int)),
        decreases v.len() - i,
    {
        text.append(v[i].type_sig().as_str());
        proof {
            assert(views.take(i + 1).drop_last() =~= views.take(i as int));
            assert(views.take(i + 1).last() == views[i as int]);
        }
        i = i + 1;
    }
    assert(views.take(i as int) =~= views);
    text
}

} // verus!
