//! The canonical serialization of a locale identifier.
//!
//! An identifier is written as its subtags joined by `-`: the language, or
//! `und` where it is absent; the script; the region; each variant; each
//! extension as its singleton followed by the keys and values of its
//! keywords in turn; and last the private-use subtags under the singleton
//! `x`.

use vstd::prelude::*;
use crate::locale::model::{und, ExtensionView, LocaleView, HYPHEN, PRIVATE_USE};

verus! {

/// The subtags `ts` joined by `-`.
pub open spec fn join(ts: Seq<Seq<u8>>) -> Seq<u8>
    decreases ts.len(),
{
    if ts.len() == 0 {
        Seq::empty()
    } else if ts.len() == 1 {
        ts[0]
    } else {
        join(ts.drop_last()) + seq![HYPHEN] + ts.last()
    }
}

/// The subtags of the language, the script and the region.
pub open spec fn head_subtags(l: LocaleView) -> Seq<Seq<u8>> {
    seq![
        match l.language {
            Some(s) => s,
            None => und(),
        },
    ] + (match l.script {
        Some(s) => seq![s],
        None => Seq::empty(),
    }) + (match l.region {
        Some(s) => seq![s],
        None => Seq::empty(),
    })
}

/// The keys and values of the keywords `e`, in turn.
pub open spec fn keyword_subtags(e: Seq<(Seq<u8>, Seq<u8>)>) -> Seq<Seq<u8>>
    decreases e.len(),
{
    if e.len() == 0 {
        Seq::empty()
    } else {
        keyword_subtags(e.drop_last()) + seq![e.last().0, e.last().1]
    }
}

/// The subtags of one extension: its singleton, then its keywords.
pub open spec fn extension_subtags(e: ExtensionView) -> Seq<Seq<u8>> {
    seq![seq![e.letter]] + keyword_subtags(e.entries)
}

/// The subtags of the extensions `e`, one extension after the other.
pub open spec fn extensions_subtags(e: Seq<ExtensionView>) -> Seq<Seq<u8>>
    decreases e.len(),
{
    if e.len() == 0 {
        Seq::empty()
    } else {
        extensions_subtags(e.drop_last()) + extension_subtags(e.last())
    }
}

/// The private-use subtags `p` under their singleton; nothing where there
/// are none.
pub open spec fn private_subtags(p: Seq<Seq<u8>>) -> Seq<Seq<u8>> {
    if p.len() == 0 {
        Seq::empty()
    } else {
        seq![seq![PRIVATE_USE]] + p
    }
}

/// The subtags that the identifier `l` is written with.
pub open spec fn subtags_of(l: LocaleView) -> Seq<Seq<u8>> {
    head_subtags(l) + l.variants + extensions_subtags(l.extensions) + private_subtags(
        l.privateuse,
    )
}

/// The canonical serialization of the identifier `l`.
pub open spec fn render(l: LocaleView) -> Seq<u8> {
    join(subtags_of(l))
}

} // verus!
