use vstd::prelude::*;

use crate::dims::{has_text, LabelDim, LabelMatcher, Matcher, ProducerDim, SizeDim};
use crate::envelope::Envelope;
use vstd::string::StringExecFns;

use crate::json::{Json, json_outcome, parse_json, texts};

verus! {

/// A routing dimension described by a client's JSON configuration.
pub enum DimSpec {
    Labels(LabelDim),
    Producer(ProducerDim),
    Size(SizeDim),
}

/// The content of a `DimSpec`, with names and labels as texts.
pub enum DimView {
    LabelsAnyOf(Seq<Seq<char>>),
    LabelsAllOf(Seq<Seq<char>>),
    LabelsNoneOf(Seq<Seq<char>>),
    ProducerAnyOf(Seq<Seq<char>>),
    ProducerNoneOf(Seq<Seq<char>>),
    Size(Option<usize>, Option<usize>),
}

impl View for DimSpec {
    type V = DimView;

    open spec fn view(&self) -> DimView {
        match self {
            DimSpec::Labels(d) => match d.0 {
                LabelMatcher::AnyOf(l) => DimView::LabelsAnyOf(texts(l@)),
                LabelMatcher::AllOf(l) => DimView::LabelsAllOf(texts(l@)),
                LabelMatcher::NoneOf(l) => DimView::LabelsNoneOf(texts(l@)),
            },
            DimSpec::Producer(d) => match d.0 {
                Matcher::AnyOf(l) => DimView::ProducerAnyOf(texts(l@)),
                Matcher::NoneOf(l) => DimView::ProducerNoneOf(texts(l@)),
            },
            DimSpec::Size(d) => DimView::Size(d.min, d.max),
        }
    }
}

/// Why a dimension configuration was refused.
#[derive(Clone, Debug, PartialEq, Eq)]
pub enum DimensionsError {
    /// Not JSON; the parser's description of the problem.
    InvalidJson(String),
    InvalidLabels,
    InvalidProducer,
    InvalidSize,
}

impl DimensionsError {
    pub open spec fn spec_message(&self) -> Seq<char> {
        match self {
            DimensionsError::InvalidJson(e) => "dimensions_json: "@ + e@,
            DimensionsError::InvalidLabels => "invalid labels dimension"@,
            DimensionsError::InvalidProducer => "invalid producer dimension"@,
            DimensionsError::InvalidSize => "invalid size dimension"@,
        }
    }

    /// The description a client is sent back.
    pub fn message(&self) -> (r: String)
        ensures
            r@ == self.spec_message(),
    {
        match self {
            DimensionsError::InvalidJson(e) => {
                let mut s = "dimensions_json: ".to_owned();
                s.append(e.as_str());
                s
            },
            DimensionsError::InvalidLabels => "invalid labels dimension".to_owned(),
            DimensionsError::InvalidProducer => "invalid producer dimension".to_owned(),
            DimensionsError::InvalidSize => "invalid size dimension".to_owned(),
        }
    }
}

pub open spec fn views(s: Seq<DimSpec>) -> Seq<DimView> {
    s.map_values(|d: DimSpec| d@)
}

/// `{"all_of": [..]}`, `{"any_of": [..]}` or `{"none_of": [..]}`, tried in that order.
pub open spec fn spec_label_dim(v: Json) -> Option<DimView> {
    match v.spec_get("all_of"@) {
        Some(a) => Some(DimView::LabelsAllOf(a.spec_str_vec())),
        None => match v.spec_get("any_of"@) {
            Some(a) => Some(DimView::LabelsAnyOf(a.spec_str_vec())),
            None => match v.spec_get("none_of"@) {
                Some(a) => Some(DimView::LabelsNoneOf(a.spec_str_vec())),
                None => None,
            },
        },
    }
}

/// `{"only": "name"}`, `{"any_of": [..]}` or `{"none_of": [..]}`, tried in that order.
pub open spec fn spec_producer_dim(v: Json) -> Option<DimView> {
    let only = match v.spec_get("only"@) {
        Some(o) => o.spec_as_str(),
        None => None,
    };
    match only {
        Some(s) => Some(DimView::ProducerAnyOf(seq![s])),
        None => match v.spec_get("any_of"@) {
            Some(a) => Some(DimView::ProducerAnyOf(a.spec_str_vec())),
            None => match v.spec_get("none_of"@) {
                Some(a) => Some(DimView::ProducerNoneOf(a.spec_str_vec())),
                None => None,
            },
        },
    }
}

/// `{"at_most": n}`, `{"at_least": n}` or `{"between": [min, max]}`, tried
/// in that order; a two-item `between` with a non-number item is invalid.
pub open spec fn spec_size_dim(v: Json) -> Option<DimView> {
    let at_most = match v.spec_get("at_most"@) {
        Some(n) => n.spec_as_u64(),
        None => None,
    };
    let at_least = match v.spec_get("at_least"@) {
        Some(n) => n.spec_as_u64(),
        None => None,
    };
    match at_most {
        Some(n) => Some(DimView::Size(None, Some(n as usize))),
        None => match at_least {
            Some(n) => Some(DimView::Size(Some(n as usize), None)),
            None => match v.spec_get("between"@) {
                Some(Json::Array(arr)) => if arr@.len() == 2 {
                    match (arr@[0].spec_as_u64(), arr@[1].spec_as_u64()) {
                        (Some(lo), Some(hi)) => Some(DimView::Size(Some(lo as usize), Some(hi as usize))),
                        _ => None,
                    }
                } else {
                    None
                },
                _ => None,
            },
        },
    }
}

/// One optional section of the configuration: absent gives nothing, present
/// and well-formed gives one dimension, present and malformed is an error.
pub open spec fn section(v: Option<Json>, parsed: Option<DimView>, err: DimensionsError) -> Result<Seq<DimView>, DimensionsError> {
    match v {
        None => Ok(Seq::empty()),
        Some(_) => match parsed {
            Some(d) => Ok(seq![d]),
            None => Err(err),
        },
    }
}

/// Dimensions configured by a parsed document, all hard requirements:
/// `labels`, then `producer`, then `size`; the first malformed section
/// decides the error.
pub open spec fn spec_dimensions(v: Json) -> Result<Seq<DimView>, DimensionsError> {
    let l = v.spec_get("labels"@);
    let p = v.spec_get("producer"@);
    let s = v.spec_get("size"@);
    let ls = section(l, match l { Some(x) => spec_label_dim(x), None => None }, DimensionsError::InvalidLabels);
    let ps = section(p, match p { Some(x) => spec_producer_dim(x), None => None }, DimensionsError::InvalidProducer);
    let ss = section(s, match s { Some(x) => spec_size_dim(x), None => None }, DimensionsError::InvalidSize);
    match ls {
        Err(e) => Err(e),
        Ok(a) => match ps {
            Err(e) => Err(e),
            Ok(b) => match ss {
                Err(e) => Err(e),
                Ok(c) => Ok(a + b + c),
            },
        },
    }
}

fn parse_label_dim(v: &Json) -> (r: Option<LabelDim>)
    ensures
        match r {
            Some(d) => spec_label_dim(*v) == Some(DimSpec::Labels(d)@),
            None => spec_label_dim(*v) is None,
        },
{
    if let Some(a) = v.get("all_of") {
        return Some(LabelDim::all_of(a.str_vec()));
    }
    if let Some(a) = v.get("any_of") {
        return Some(LabelDim::any_of(a.str_vec()));
    }
    if let Some(a) = v.get("none_of") {
        return Some(LabelDim::none_of(a.str_vec()));
    }
    None
}

fn parse_producer_dim(v: &Json) -> (r: Option<ProducerDim>)
    ensures
        match r {
            Some(d) => spec_producer_dim(*v) == Some(DimSpec::Producer(d)@),
            None => spec_producer_dim(*v) is None,
        },
{
    if let Some(o) = v.get("only") {
        if let Some(s) = o.as_str() {
            let d = ProducerDim::only(s.clone());
            proof {
                assert(texts(seq![*s]) =~= seq![s@]);
            }
            return Some(d);
        }
    }
    if let Some(a) = v.get("any_of") {
        return Some(ProducerDim::any_of(a.str_vec()));
    }
    if let Some(a) = v.get("none_of") {
        return Some(ProducerDim::none_of(a.str_vec()));
    }
    None
}

fn parse_size_dim(v: &Json) -> (r: Option<SizeDim>)
    ensures
        match r {
            Some(d) => spec_size_dim(*v) == Some(DimSpec::Size(d)@),
            None => spec_size_dim(*v) is None,
        },
{
    if let Some(x) = v.get("at_most") {
        if let Some(n) = x.as_u64() {
            return Some(SizeDim::at_most(n as usize));
        }
    }
    if let Some(x) = v.get("at_least") {
        if let Some(n) = x.as_u64() {
            return Some(SizeDim::at_least(n as usize));
        }
    }
    if let Some(x) = v.get("between") {
        if let Json::Array(arr) = x {
            if arr.len() == 2 {
                let lo = match arr[0].as_u64() {
                    Some(n) => n,
                    None => {
                        return None;
                    },
                };
                let hi = match arr[1].as_u64() {
                    Some(n) => n,
                    None => {
                        return None;
                    },
                };
                return Some(SizeDim::between(lo as usize, hi as usize));
            }
        }
    }
    None
}

/// The dimensions a parsed configuration document asks for.
pub fn dimensions_from_json(v: &Json) -> (r: Result<Vec<DimSpec>, DimensionsError>)
    ensures
        match r {
            Ok(ds) => spec_dimensions(*v) == Ok::<Seq<DimView>, DimensionsError>(views(ds@)),
            Err(e) => spec_dimensions(*v) == Err::<Seq<DimView>, DimensionsError>(e),
        },
{
    let mut dims: Vec<DimSpec> = Vec::new();
    if let Some(l) = v.get("labels") {
        match parse_label_dim(l) {
            Some(d) => dims.push(DimSpec::Labels(d)),
            None => {
                return Err(DimensionsError::InvalidLabels);
            },
        }
    }
    let ghost after_labels = dims@;
    if let Some(p) = v.get("producer") {
        match parse_producer_dim(p) {
            Some(d) => dims.push(DimSpec::Producer(d)),
            None => {
                return Err(DimensionsError::InvalidProducer);
            },
        }
    }
    let ghost after_producer = dims@;
    if let Some(s) = v.get("size") {
        match parse_size_dim(s) {
            Some(d) => dims.push(DimSpec::Size(d)),
            None => {
                return Err(DimensionsError::InvalidSize);
            },
        }
    }
    proof {
        let l = v.spec_get("labels"@);
        let p = v.spec_get("producer"@);
        let s = v.spec_get("size"@);
        let a = section(l, match l { Some(x) => spec_label_dim(x), None => None }, DimensionsError::InvalidLabels);
        let b = section(p, match p { Some(x) => spec_producer_dim(x), None => None }, DimensionsError::InvalidProducer);
        let c = section(s, match s { Some(x) => spec_size_dim(x), None => None }, DimensionsError::InvalidSize);
        assert(views(after_labels) =~= a->Ok_0);
        assert(views(after_producer) =~= views(after_labels) + b->Ok_0);
        assert(views(dims@) =~= views(after_producer) + c->Ok_0);
    }
    Ok(dims)
}

/// Parses a client's `dimensions_json`: empty text configures nothing,
/// text that is not JSON is refused with the parser's description of the
/// problem, otherwise see `dimensions_from_json`.
pub fn parse_dimensions(json: &str) -> (r: Result<Vec<DimSpec>, DimensionsError>)
    ensures
        json@.len() == 0 ==> (r matches Ok(ds) && ds@.len() == 0),
        json@.len() > 0 ==> match json_outcome(json@) {
            Err(text) => r matches Err(DimensionsError::InvalidJson(e)) && e@ == text,
            Ok(v) => match r {
                Ok(ds) => spec_dimensions(v) == Ok::<Seq<DimView>, DimensionsError>(views(ds@)),
                Err(e) => spec_dimensions(v) == Err::<Seq<DimView>, DimensionsError>(e),
            },
        },
{
    if json.is_empty() {
        return Ok(Vec::new());
    }
    match parse_json(json) {
        Err(e) => Err(DimensionsError::InvalidJson(e)),
        Ok(v) => dimensions_from_json(&v),
    }
}

/// Views of dimensions paired with their hard-requirement flags.
pub open spec fn flagged_views(ps: Seq<(DimSpec, bool)>) -> Seq<(DimView, bool)> {
    ps.map_values(|p: (DimSpec, bool)| (p.0@, p.1))
}

/// Every dimension of `vs` as a hard requirement.
pub open spec fn all_required(vs: Seq<DimView>) -> Seq<(DimView, bool)> {
    vs.map_values(|d: DimView| (d, true))
}

/// Like `parse_dimensions`, with each dimension paired with its
/// hard-requirement flag: every dimension a client configures is a hard
/// requirement.
pub fn parse_requirements(json: &str) -> (r: Result<Vec<(DimSpec, bool)>, DimensionsError>)
    ensures
        json@.len() == 0 ==> (r matches Ok(ps) && ps@.len() == 0),
        json@.len() > 0 ==> match json_outcome(json@) {
            Err(text) => r matches Err(DimensionsError::InvalidJson(e)) && e@ == text,
            Ok(v) => match r {
                Ok(ps) => spec_dimensions(v) matches Ok(vs) && flagged_views(ps@) == all_required(vs),
                Err(e) => spec_dimensions(v) == Err::<Seq<DimView>, DimensionsError>(e),
            },
        },
{
    let ds = match parse_dimensions(json) {
        Ok(ds) => ds,
        Err(e) => {
            return Err(e);
        },
    };
    let ghost all = ds@;
    let n = ds.len();
    let mut rest = ds;
    let mut out: Vec<(DimSpec, bool)> = Vec::new();
    let mut k: usize = 0;
    while rest.len() > 0
        invariant
            k + rest@.len() == n,
            all.len() == n,
            rest@ == all.subrange(k as int, n as int),
            flagged_views(out@) == all_required(views(all.take(k as int))),
        decreases rest@.len(),
    {
        let d = rest.remove(0);
        let ghost before = out@;
        out.push((d, true));
        proof {
            assert(d == all[k as int]);
            assert(all.take(k + 1) =~= all.take(k as int).push(d));
            assert(views(all.take(k + 1)) =~= views(all.take(k as int)).push(d@));
            assert(flagged_views(out@) =~= flagged_views(before).push((d@, true)));
            assert(all_required(views(all.take(k + 1))) =~= all_required(views(all.take(k as int))).push((d@, true)));
            assert(rest@ =~= all.subrange(k + 1, n as int));
        }
        k = k + 1;
    }
    proof {
        assert(all.take(n as int) =~= all);
    }
    Ok(out)
}

/// Law: which key of a `labels` section decides its matcher: `all_of`
/// first, then `any_of`, then `none_of`, each over the string items of that
/// member; a section with none of them is malformed.
pub proof fn lemma_label_section_keys(x: Json)
    ensures
        x.spec_get("all_of"@) matches Some(a) ==> spec_label_dim(x) == Some(DimView::LabelsAllOf(a.spec_str_vec())),
        x.spec_get("all_of"@) is None ==> (x.spec_get("any_of"@) matches Some(a) ==> spec_label_dim(x) == Some(
            DimView::LabelsAnyOf(a.spec_str_vec()),
        )),
        x.spec_get("all_of"@) is None && x.spec_get("any_of"@) is None ==> (x.spec_get("none_of"@) matches Some(a)
            ==> spec_label_dim(x) == Some(DimView::LabelsNoneOf(a.spec_str_vec()))),
        x.spec_get("all_of"@) is None && x.spec_get("any_of"@) is None && x.spec_get("none_of"@) is None
            ==> spec_label_dim(x) is None,
{
}

/// Law: which key of a `producer` section decides its matcher: a string
/// `only` first (the one name), then `any_of`, then `none_of`.
pub proof fn lemma_producer_section_keys(x: Json)
    ensures
        ({
            let only = match x.spec_get("only"@) {
                Some(o) => o.spec_as_str(),
                None => None,
            };
            &&& only matches Some(n) ==> spec_producer_dim(x) == Some(DimView::ProducerAnyOf(seq![n]))
            &&& only is None ==> (x.spec_get("any_of"@) matches Some(a) ==> spec_producer_dim(x) == Some(
                DimView::ProducerAnyOf(a.spec_str_vec()),
            ))
            &&& only is None && x.spec_get("any_of"@) is None ==> (x.spec_get("none_of"@) matches Some(a)
                ==> spec_producer_dim(x) == Some(DimView::ProducerNoneOf(a.spec_str_vec())))
            &&& only is None && x.spec_get("any_of"@) is None && x.spec_get("none_of"@) is None
                ==> spec_producer_dim(x) is None
        }),
{
}

/// Law: a numeric `at_most` bounds the size from above only, a numeric
/// `at_least` from below only (when there is no numeric `at_most`).
pub proof fn lemma_size_section_keys(x: Json)
    ensures
        ({
            let at_most = match x.spec_get("at_most"@) {
                Some(n) => n.spec_as_u64(),
                None => None,
            };
            let at_least = match x.spec_get("at_least"@) {
                Some(n) => n.spec_as_u64(),
                None => None,
            };
            &&& at_most matches Some(n) ==> spec_size_dim(x) == Some(DimView::Size(None, Some(n as usize)))
            &&& at_most is None ==> (at_least matches Some(n) ==> spec_size_dim(x) == Some(
                DimView::Size(Some(n as usize), None),
            ))
        }),
{
}

/// Law: what the view of a parsed label dimension means for admission: a
/// `LabelsNoneOf` dimension admits a message exactly when it carries none
/// of the listed labels, `LabelsAnyOf` when it carries one of them,
/// `LabelsAllOf` when it carries all of them.
pub proof fn lemma_label_view_admits(d: LabelDim, env: &Envelope, t: Seq<Seq<char>>)
    ensures
        DimSpec::Labels(d)@ == DimView::LabelsNoneOf(t) ==> (d.spec_admits(env) <==> forall|i: int|
            0 <= i < t.len() ==> !has_text(env.message.labels@, #[trigger] t[i])),
        DimSpec::Labels(d)@ == DimView::LabelsAnyOf(t) ==> (d.spec_admits(env) <==> exists|i: int|
            0 <= i < t.len() && has_text(env.message.labels@, #[trigger] t[i])),
        DimSpec::Labels(d)@ == DimView::LabelsAllOf(t) ==> (d.spec_admits(env) <==> forall|i: int|
            0 <= i < t.len() ==> has_text(env.message.labels@, #[trigger] t[i])),
{
    let carried = env.message.labels@;
    match d.0 {
        LabelMatcher::AnyOf(l) => {
            let t = texts(l@);
            assert(DimSpec::Labels(d)@ == DimView::LabelsAnyOf(t));
            assert(forall|i: int| 0 <= i < t.len() ==> #[trigger] t[i] == l@[i]@);
            if d.spec_admits(env) {
                let i = choose|i: int| 0 <= i < l@.len() && has_text(carried, (#[trigger] l@[i])@);
                assert(has_text(carried, t[i]));
            }
            if exists|i: int| 0 <= i < t.len() && has_text(carried, #[trigger] t[i]) {
                let i = choose|i: int| 0 <= i < t.len() && has_text(carried, #[trigger] t[i]);
                assert(has_text(carried, l@[i]@));
            }
        },
        LabelMatcher::AllOf(l) => {
            let t = texts(l@);
            assert(DimSpec::Labels(d)@ == DimView::LabelsAllOf(t));
            assert(forall|i: int| 0 <= i < t.len() ==> #[trigger] t[i] == l@[i]@);
            if d.spec_admits(env) {
                assert forall|i: int| 0 <= i < t.len() implies has_text(carried, #[trigger] t[i]) by {
                    assert(has_text(carried, l@[i]@));
                }
            }
            if forall|i: int| 0 <= i < t.len() ==> has_text(carried, #[trigger] t[i]) {
                assert forall|i: int| 0 <= i < l@.len() implies has_text(carried, (#[trigger] l@[i])@) by {
                    assert(has_text(carried, t[i]));
                }
            }
        },
        LabelMatcher::NoneOf(l) => {
            let t = texts(l@);
            assert(DimSpec::Labels(d)@ == DimView::LabelsNoneOf(t));
            assert(forall|i: int| 0 <= i < t.len() ==> #[trigger] t[i] == l@[i]@);
            if d.spec_admits(env) {
                assert forall|i: int| 0 <= i < t.len() implies !has_text(carried, #[trigger] t[i]) by {
                    assert(!has_text(carried, l@[i]@));
                }
            }
            if forall|i: int| 0 <= i < t.len() ==> !has_text(carried, #[trigger] t[i]) {
                assert forall|i: int| 0 <= i < l@.len() implies !has_text(carried, (#[trigger] l@[i])@) by {
                    assert(!has_text(carried, t[i]));
                }
            }
        },
    }
}

} // verus!
