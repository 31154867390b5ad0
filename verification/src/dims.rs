use vstd::prelude::*;

use crate::envelope::Envelope;

verus! {

/// Some string of `list` has the text `v`.
pub open spec fn has_text(list: Seq<String>, v: Seq<char>) -> bool {
    exists|i: int| 0 <= i < list.len() && (#[trigger] list[i])@ == v
}

fn list_has(list: &Vec<String>, value: &String) -> (r: bool)
    ensures
        r == has_text(list@, value@),
{
    let n = list.len();
    let mut i: usize = 0;
    while i < n
        invariant
            n == list@.len(),
            i <= n,
            forall|k: int| 0 <= k < i ==> (#[trigger] list@[k])@ != value@,
        decreases n - i,
    {
        if list[i].eq(value) {
            return true;
        }
        i = i + 1;
    }
    false
}

/// Name matcher used by `ProducerDim`.
#[derive(Clone, Debug)]
pub enum Matcher {
    AnyOf(Vec<String>),
    NoneOf(Vec<String>),
}

impl Matcher {
    pub open spec fn spec_matches(&self, value: Seq<char>) -> bool {
        match self {
            Matcher::AnyOf(list) => has_text(list@, value),
            Matcher::NoneOf(list) => !has_text(list@, value),
        }
    }

    /// `AnyOf` matches a listed name, `NoneOf` any name not listed.
    pub fn matches(&self, value: &String) -> (r: bool)
        ensures
            r == self.spec_matches(value@),
    {
        match self {
            Matcher::AnyOf(list) => list_has(list, value),
            Matcher::NoneOf(list) => !list_has(list, value),
        }
    }
}

/// Routes by the name of the producer.
#[derive(Clone, Debug)]
pub struct ProducerDim(pub Matcher);

impl ProducerDim {
    /// Only messages from `name`.
    pub fn only(name: String) -> (d: Self)
        ensures
            d.0 matches Matcher::AnyOf(l) && l@ == seq![name],
    {
        let mut l: Vec<String> = Vec::new();
        l.push(name);
        ProducerDim(Matcher::AnyOf(l))
    }

    /// Messages from any of `names`.
    pub fn any_of(names: Vec<String>) -> (d: Self)
        ensures
            d.0 matches Matcher::AnyOf(l) && l@ == names@,
    {
        ProducerDim(Matcher::AnyOf(names))
    }

    /// Messages from none of `names`.
    pub fn none_of(names: Vec<String>) -> (d: Self)
        ensures
            d.0 matches Matcher::NoneOf(l) && l@ == names@,
    {
        ProducerDim(Matcher::NoneOf(names))
    }

    pub open spec fn spec_admits(&self, env: &Envelope) -> bool {
        self.0.spec_matches(env.origin.0@)
    }

    /// Whether the envelope's origin satisfies the matcher (a miss is a reject).
    pub fn admits(&self, env: &Envelope) -> (r: bool)
        ensures
            r == self.spec_admits(env),
    {
        self.0.matches(&env.origin.0)
    }
}

/// Label matcher used by `LabelDim`.
#[derive(Clone, Debug)]
pub enum LabelMatcher {
    AnyOf(Vec<String>),
    AllOf(Vec<String>),
    NoneOf(Vec<String>),
}

/// Some label of `wanted` is carried by the message.
pub open spec fn some_label_carried(wanted: Seq<String>, carried: Seq<String>) -> bool {
    exists|i: int| 0 <= i < wanted.len() && has_text(carried, (#[trigger] wanted[i])@)
}

/// Every label of `wanted` is carried by the message.
pub open spec fn all_labels_carried(wanted: Seq<String>, carried: Seq<String>) -> bool {
    forall|i: int| 0 <= i < wanted.len() ==> has_text(carried, (#[trigger] wanted[i])@)
}

/// Routes by overlap between its label list and the message labels.
#[derive(Clone, Debug)]
pub struct LabelDim(pub LabelMatcher);

impl LabelDim {
    /// Messages carrying at least one of `labels`.
    pub fn any_of(labels: Vec<String>) -> (d: Self)
        ensures
            d.0 matches LabelMatcher::AnyOf(l) && l@ == labels@,
    {
        LabelDim(LabelMatcher::AnyOf(labels))
    }

    /// Messages carrying every one of `labels`.
    pub fn all_of(labels: Vec<String>) -> (d: Self)
        ensures
            d.0 matches LabelMatcher::AllOf(l) && l@ == labels@,
    {
        LabelDim(LabelMatcher::AllOf(labels))
    }

    /// Messages carrying none of `labels`.
    pub fn none_of(labels: Vec<String>) -> (d: Self)
        ensures
            d.0 matches LabelMatcher::NoneOf(l) && l@ == labels@,
    {
        LabelDim(LabelMatcher::NoneOf(labels))
    }

    pub open spec fn spec_admits(&self, env: &Envelope) -> bool {
        let carried = env.message.labels@;
        match self.0 {
            LabelMatcher::AnyOf(l) => some_label_carried(l@, carried),
            LabelMatcher::AllOf(l) => all_labels_carried(l@, carried),
            LabelMatcher::NoneOf(l) => !some_label_carried(l@, carried),
        }
    }

    /// Whether the message labels satisfy the matcher (a miss is a reject).
    pub fn admits(&self, env: &Envelope) -> (r: bool)
        ensures
            r == self.spec_admits(env),
    {
        let carried = &env.message.labels;
        match &self.0 {
            LabelMatcher::AnyOf(l) => any_carried(l, carried),
            LabelMatcher::AllOf(l) => all_carried(l, carried),
            LabelMatcher::NoneOf(l) => !any_carried(l, carried),
        }
    }
}

fn all_carried(wanted: &Vec<String>, carried: &Vec<String>) -> (r: bool)
    ensures
        r == all_labels_carried(wanted@, carried@),
{
    let n = wanted.len();
    let mut i: usize = 0;
    while i < n
        invariant
            n == wanted@.len(),
            i <= n,
            forall|k: int| 0 <= k < i ==> has_text(carried@, (#[trigger] wanted@[k])@),
        decreases n - i,
    {
        if !list_has(carried, &wanted[i]) {
            assert(!has_text(carried@, wanted@[i as int]@));
            return false;
        }
        i = i + 1;
    }
    true
}

fn any_carried(wanted: &Vec<String>, carried: &Vec<String>) -> (r: bool)
    ensures
        r == some_label_carried(wanted@, carried@),
{
    let n = wanted.len();
    let mut i: usize = 0;
    while i < n
        invariant
            n == wanted@.len(),
            i <= n,
            forall|k: int| 0 <= k < i ==> !has_text(carried@, (#[trigger] wanted@[k])@),
        decreases n - i,
    {
        if list_has(carried, &wanted[i]) {
            return true;
        }
        i = i + 1;
    }
    false
}

/// Routes by payload size, with optional inclusive bounds.
#[derive(Clone, Debug)]
pub struct SizeDim {
    pub min: Option<usize>,
    pub max: Option<usize>,
}

impl SizeDim {
    /// Payloads of at most `max_bytes`.
    pub fn at_most(max_bytes: usize) -> (d: Self)
        ensures
            d.min is None,
            d.max == Some(max_bytes),
    {
        SizeDim { min: None, max: Some(max_bytes) }
    }

    /// Payloads of at least `min_bytes`.
    pub fn at_least(min_bytes: usize) -> (d: Self)
        ensures
            d.min == Some(min_bytes),
            d.max is None,
    {
        SizeDim { min: Some(min_bytes), max: None }
    }

    /// Payloads between `min` and `max` bytes, both included.
    pub fn between(min: usize, max: usize) -> (d: Self)
        ensures
            d.min == Some(min),
            d.max == Some(max),
    {
        SizeDim { min: Some(min), max: Some(max) }
    }

    pub open spec fn spec_admits_size(&self, size: nat) -> bool {
        let too_small = match self.min {
            Some(m) => size < m,
            None => false,
        };
        let too_large = match self.max {
            Some(m) => size > m,
            None => false,
        };
        !(too_small || too_large)
    }

    pub open spec fn spec_admits(&self, env: &Envelope) -> bool {
        self.spec_admits_size(env.message.data@.len())
    }

    /// Whether the payload size lies within the bounds (a miss is a reject).
    pub fn admits(&self, env: &Envelope) -> (r: bool)
        ensures
            r == self.spec_admits(env),
    {
        let size = env.message.data.len();
        let too_small = match self.min {
            Some(m) => size < m,
            None => false,
        };
        let too_large = match self.max {
            Some(m) => size > m,
            None => false,
        };
        !(too_small || too_large)
    }
}

/// Law: `AnyOf` matches a name exactly when some listed name is that name,
/// and `NoneOf` exactly when no listed name is.
pub proof fn lemma_matcher_compares_every_name(m: Matcher, v: Seq<char>)
    ensures
        m matches Matcher::AnyOf(l) ==> (m.spec_matches(v) <==> exists|i: int|
            0 <= i < l@.len() && (#[trigger] l@[i])@ == v),
        m matches Matcher::NoneOf(l) ==> (m.spec_matches(v) <==> forall|i: int|
            0 <= i < l@.len() ==> (#[trigger] l@[i])@ != v),
{
}

/// Law: `ProducerDim::only(name)` admits exactly the envelopes from `name`.
pub proof fn lemma_only_admits_exactly_its_producer(d: ProducerDim, name: String, env: &Envelope)
    requires
        d.0 matches Matcher::AnyOf(l) && l@ == seq![name],
    ensures
        d.spec_admits(env) <==> env.origin.0@ == name@,
{
    if env.origin.0@ == name@ {
        let l = d.0->AnyOf_0;
        assert(l@[0]@ == env.origin.0@);
    }
}

/// Law: a label dimension admits a message, in terms of its labels:
/// `AnyOf` when some listed label is carried, `AllOf` when every listed
/// label is, `NoneOf` when no listed label is.
pub proof fn lemma_label_dim_admits(d: LabelDim, env: &Envelope)
    ensures
        ({
            let carried = env.message.labels@;
            let carries = |x: Seq<char>| exists|j: int| 0 <= j < carried.len() && (#[trigger] carried[j])@ == x;
            &&& d.0 matches LabelMatcher::AnyOf(l) ==> (d.spec_admits(env) <==> exists|i: int|
                0 <= i < l@.len() && carries((#[trigger] l@[i])@))
            &&& d.0 matches LabelMatcher::AllOf(l) ==> (d.spec_admits(env) <==> forall|i: int|
                0 <= i < l@.len() ==> carries((#[trigger] l@[i])@))
            &&& d.0 matches LabelMatcher::NoneOf(l) ==> (d.spec_admits(env) <==> forall|i: int|
                0 <= i < l@.len() ==> !carries((#[trigger] l@[i])@))
        }),
{
}

/// Law: a size dimension admits a payload exactly when its length is at
/// least the lower bound and at most the upper bound, where set.
pub proof fn lemma_size_dim_admits(d: SizeDim, env: &Envelope)
    ensures
        d.spec_admits(env) <==> ((d.min matches Some(lo) ==> lo <= env.message.data@.len()) && (d.max matches Some(
            hi,
        ) ==> env.message.data@.len() <= hi)),
{
}

} // verus!
