//! Reading the arguments of a call.
use vstd::prelude::*;
use crate::error::{ErrV, MethodErr};
use crate::item::{Item, MessageItem, lemma_items_view};
use crate::message::Message;
use crate::show::shown;

verus! {

/// Argument `n`, which has to be a string.
pub open spec fn str_arg(items: Seq<Item>, n: int) -> Result<Seq<char>, ErrV> {
    if n >= items.len() {
        Err(ErrV::no_arg())
    } else {
        match items[n] {
            Item::Str(s) => Ok(s),
            i => Err(ErrV::invalid_arg(shown(i))),
        }
    }
}

/// The value in argument `n`, which has to be a variant.
pub open spec fn variant_arg(items: Seq<Item>, n: int) -> Result<Item, ErrV> {
    if n >= items.len() {
        Err(ErrV::no_arg())
    } else {
        match items[n] {
            Item::Variant(x) => Ok(*x),
            i => Err(ErrV::invalid_arg(shown(i))),
        }
    }
}

/// Argument `n` of `m`, which has to be a string.
pub fn get_str(m: &Message, n: usize) -> (r: Result<&str, MethodErr>)
    ensures
        match r {
            Ok(s) => str_arg(m@.items, n as int) == Ok::<Seq<char>, ErrV>(s@),
            Err(e) => str_arg(m@.items, n as int) == Err::<Seq<char>, ErrV>(e@),
        },
{
    proof {
        lemma_items_view(m.items@);
    }
    if n >= m.items.len() {
        return Err(MethodErr::no_arg());
    }
    let i = &m.items[n];
    assert(m@.items[n as int] == i@);
    match i {
        MessageItem::Str(s) => Ok(s.as_str()),
        _ => Err(MethodErr::invalid_arg(i.shown().as_str())),
    }
}

/// The value in argument `n` of `m`, which has to be a variant.
pub fn get_variant(m: &Message, n: usize) -> (r: Result<&MessageItem, MethodErr>)
    ensures
        match r {
            Ok(i) => variant_arg(m@.items, n as int) == Ok::<Item, ErrV>(i@),
            Err(e) => variant_arg(m@.items, n as int) == Err::<Item, ErrV>(e@),
        },
{
    proof {
        lemma_items_view(m.items@);
    }
    if n >= m.items.len() {
        return Err(MethodErr::no_arg());
    }
    let i = &m.items[n];
    assert(m@.items[n as int] == i@);
    match i {
        MessageItem::Variant(x) => Ok(&**x),
        _ => Err(MethodErr::invalid_arg(i.shown().as_str())),
    }
}

} // verus!
