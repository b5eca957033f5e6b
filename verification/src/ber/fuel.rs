//! How the depth bound of a schema relates to the depth it is used at: a sound
//! schema stays sound with more room, and a value keeps its type.

use super::model::{Asn, SpecKind, SpecSchema};
use super::spec::{wf, wt};
use vstd::prelude::*;

verus! {

/// A schema that is sound within depth `f` is sound within any larger depth.
pub proof fn lemma_wf_more_fuel(f: nat, g: nat, s: SpecSchema)
    requires
        wf(f, s),
        f <= g,
    ensures
        wf(g, s),
    decreases f,
{
    match s.kind {
        SpecKind::Sequence(fs) => {
            assert forall|i: int| 0 <= i < fs.len() implies !(#[trigger] fs[i].schema.kind is Choice)
                && wf((g - 1) as nat, fs[i].schema) by {
                lemma_wf_more_fuel((f - 1) as nat, (g - 1) as nat, fs[i].schema);
            }
        },
        SpecKind::SequenceOf(e) => {
            lemma_wf_more_fuel((f - 1) as nat, (g - 1) as nat, *e);
        },
        SpecKind::Choice(alts) => {
            assert forall|i: int| 0 <= i < alts.len() implies !(#[trigger] alts[i].kind is Choice)
                && wf((g - 1) as nat, alts[i]) by {
                lemma_wf_more_fuel((f - 1) as nat, (g - 1) as nat, alts[i]);
            }
        },
        _ => {},
    }
}

/// A value of a type within depth `f` is one within any larger depth.
pub proof fn lemma_wt_more_fuel(f: nat, g: nat, s: SpecSchema, v: Asn)
    requires
        wt(f, s, v),
        f <= g,
    ensures
        wt(g, s, v),
    decreases f,
{
    match s.kind {
        SpecKind::Sequence(fs) => {
            let vals = v->Sequence_0;
            assert forall|i: int| 0 <= i < fs.len() implies match #[trigger] vals[i] {
                None => fs[i].optional,
                Some(x) => wt((g - 1) as nat, fs[i].schema, x),
            } by {
                if let Some(x) = vals[i] {
                    lemma_wt_more_fuel((f - 1) as nat, (g - 1) as nat, fs[i].schema, x);
                }
            }
        },
        SpecKind::SequenceOf(e) => {
            let items = v->SequenceOf_0;
            assert forall|i: int| 0 <= i < items.len() implies wt(
                (g - 1) as nat,
                *e,
                #[trigger] items[i],
            ) by {
                lemma_wt_more_fuel((f - 1) as nat, (g - 1) as nat, *e, items[i]);
            }
        },
        SpecKind::Choice(alts) => {
            let i = v->Choice_0;
            let b = v->Choice_1;
            lemma_wt_more_fuel((f - 1) as nat, (g - 1) as nat, alts[i as int], *b);
        },
        _ => {},
    }
}

/// Within a depth at which the schema is sound, a value of the schema at any
/// depth is a value of it.
pub proof fn lemma_wt_within(h: nat, f: nat, s: SpecSchema, v: Asn)
    requires
        wf(h, s),
        wt(f, s, v),
    ensures
        wt(h, s, v),
    decreases h,
{
    match s.kind {
        SpecKind::Sequence(fs) => {
            let vals = v->Sequence_0;
            assert forall|i: int| 0 <= i < fs.len() implies match #[trigger] vals[i] {
                None => fs[i].optional,
                Some(x) => wt((h - 1) as nat, fs[i].schema, x),
            } by {
                if let Some(x) = vals[i] {
                    assert(!(fs[i].schema.kind is Choice));
                    lemma_wt_within((h - 1) as nat, (f - 1) as nat, fs[i].schema, x);
                }
            }
        },
        SpecKind::SequenceOf(e) => {
            let items = v->SequenceOf_0;
            assert forall|i: int| 0 <= i < items.len() implies wt(
                (h - 1) as nat,
                *e,
                #[trigger] items[i],
            ) by {
                lemma_wt_within((h - 1) as nat, (f - 1) as nat, *e, items[i]);
            }
        },
        SpecKind::Choice(alts) => {
            let i = v->Choice_0;
            let b = v->Choice_1;
            assert(!(alts[i as int].kind is Choice));
            lemma_wt_within((h - 1) as nat, (f - 1) as nat, alts[i as int], *b);
        },
        _ => {},
    }
}

} // verus!
