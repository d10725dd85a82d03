//! Rendering the texts a page needs from one bundle, collecting formatting
//! problems instead of failing.

use crate::bundle::{args_view, formatted, Bundle, TextArgs};
use vstd::prelude::*;

verus! {

/// One text to render: a message id and its optional named arguments.
pub struct TextRequest {
    pub id: String,
    pub args: Option<TextArgs>,
}

/// A problem met while rendering one text.
#[derive(Debug)]
pub enum TextError {
    /// The bundle has no message `id`, or it has no value.
    MissingMessage { id: String },
    /// Formatting message `id` went wrong as `detail` describes.
    Format { id: String, detail: String },
}

/// The model of a `TextError`.
pub enum TextErrorView {
    MissingMessage(Seq<char>),
    Format(Seq<char>, Seq<char>),
}

impl View for TextError {
    type V = TextErrorView;

    open spec fn view(&self) -> TextErrorView {
        match self {
            TextError::MissingMessage { id } => TextErrorView::MissingMessage(id@),
            TextError::Format { id, detail } => TextErrorView::Format(id@, detail@),
        }
    }
}

/// The text rendered for message `id` with `args` in `b`, and its problems.
/// A missing message renders as its id.
pub open spec fn rendered(
    b: Bundle,
    id: Seq<char>,
    args: Option<Seq<(Seq<char>, Seq<char>)>>,
) -> (Seq<char>, Seq<TextErrorView>) {
    match formatted(b.text(), b.tag(), id, args) {
        Some((t, es)) => (t, es.map_values(|e: Seq<char>| TextErrorView::Format(id, e))),
        None => (id, seq![TextErrorView::MissingMessage(id)]),
    }
}

/// Id to rendered text of `reqs`; a later request for an id replaces an
/// earlier one.
pub open spec fn text_map(b: Bundle, reqs: Seq<TextRequest>) -> Map<Seq<char>, Seq<char>>
    decreases reqs.len(),
{
    if reqs.len() == 0 {
        Map::empty()
    } else {
        let r = reqs.last();
        text_map(b, reqs.drop_last()).insert(r.id@, rendered(b, r.id@, args_view(r.args)).0)
    }
}

/// The problems met rendering `reqs`, in order.
pub open spec fn text_errors(b: Bundle, reqs: Seq<TextRequest>) -> Seq<TextErrorView>
    decreases reqs.len(),
{
    if reqs.len() == 0 {
        Seq::empty()
    } else {
        let r = reqs.last();
        text_errors(b, reqs.drop_last()) + rendered(b, r.id@, args_view(r.args)).1
    }
}

/// The ids of a sequence of requests.
pub open spec fn ids(reqs: Seq<TextRequest>) -> Set<Seq<char>> {
    reqs.map_values(|r: TextRequest| r.id@).to_set()
}

/// The rendered texts cover exactly the distinct ids declared, whatever
/// went wrong while formatting them.
pub proof fn lemma_text_map_keys(b: Bundle, reqs: Seq<TextRequest>)
    ensures
        text_map(b, reqs).dom() == ids(reqs),
    decreases reqs.len(),
{
    if reqs.len() > 0 {
        let rest = reqs.drop_last();
        lemma_text_map_keys(b, rest);
        let all = reqs.map_values(|r: TextRequest| r.id@);
        let part = rest.map_values(|r: TextRequest| r.id@);
        assert(all =~= part.push(reqs.last().id@));
        assert forall|k: Seq<char>| ids(reqs).contains(k) <==> ids(rest).insert(
            reqs.last().id@,
        ).contains(k) by {
            if ids(reqs).contains(k) {
                let j = choose|j: int| 0 <= j < all.len() && all[j] == k;
                if j < part.len() {
                    assert(part[j] == k);
                }
            }
            if ids(rest).contains(k) {
                let j = choose|j: int| 0 <= j < part.len() && part[j] == k;
                assert(all[j] == k);
            }
            if k == reqs.last().id@ {
                assert(all[all.len() - 1] == k);
            }
        }
        assert(text_map(b, reqs).dom() =~= ids(reqs));
    }
}

/// Building is a function of the bundle's locale and resource and of the
/// declared ids and arguments: two builds of the same declarations from the
/// same bundle give the same texts and the same problems.
pub proof fn lemma_build_deterministic(
    b1: Bundle,
    b2: Bundle,
    reqs1: Seq<TextRequest>,
    reqs2: Seq<TextRequest>,
)
    requires
        b1.tag() == b2.tag(),
        b1.text() == b2.text(),
        reqs1.len() == reqs2.len(),
        forall|i: int|
            0 <= i < reqs1.len() ==> #[trigger] reqs1[i].id@ == reqs2[i].id@ && args_view(
                reqs1[i].args,
            ) == args_view(reqs2[i].args),
    ensures
        text_map(b1, reqs1) == text_map(b2, reqs2),
        text_errors(b1, reqs1) == text_errors(b2, reqs2),
    decreases reqs1.len(),
{
    if reqs1.len() > 0 {
        let n = reqs1.len() - 1;
        assert(reqs1[n].id@ == reqs2[n].id@);
        lemma_build_deterministic(b1, b2, reqs1.drop_last(), reqs2.drop_last());
    }
}

/// `v` lists the map `m`: one pair per key, each with its value.
pub open spec fn lists(v: Seq<(String, String)>, m: Map<Seq<char>, Seq<char>>) -> bool {
    &&& forall|i: int|
        0 <= i < v.len() ==> #[trigger] m.contains_key(v[i].0@) && m[v[i].0@] == v[i].1@
    &&& forall|k: Seq<char>| #[trigger]
        m.contains_key(k) ==> exists|i: int| 0 <= i < v.len() && #[trigger] v[i].0@ == k
    &&& forall|i: int, j: int| 0 <= i < v.len() && 0 <= j < v.len() && i != j ==> v[i].0@ != v[j].0@
}

/// Where the pair for key `id` stands in `v`.
fn position(v: &Vec<(String, String)>, id: &String) -> (r: Option<usize>)
    ensures
        match r {
            Some(i) => i < v@.len() && v@[i as int].0@ == id@,
            None => forall|i: int| 0 <= i < v@.len() ==> v@[i].0@ != id@,
        },
{
    let mut i: usize = 0;
    while i < v.len()
        invariant
            i <= v@.len(),
            forall|j: int| 0 <= j < i ==> v@[j].0@ != id@,
        decreases v@.len() - i,
    {
        if v[i].0.eq(id) {
            return Some(i);
        }
        i += 1;
    }
    None
}

/// Sets key `id` of the listed map to `text`.
fn put(v: &mut Vec<(String, String)>, id: String, text: String, Ghost(m): Ghost<Map<Seq<char>, Seq<char>>>)
    requires
        lists(old(v)@, m),
    ensures
        lists(final(v)@, m.insert(id@, text@)),
{
    let ghost k = id@;
    let ghost t = text@;
    let ghost at: int;
    match position(v, &id) {
        Some(i) => {
            v.set(i, (id, text));
            proof {
                at = i as int;
            }
        },
        None => {
            v.push((id, text));
            proof {
                at = v@.len() - 1;
            }
        },
    }
    let ghost m2 = m.insert(k, t);
    assert forall|q: Seq<char>| #[trigger] m2.contains_key(q) implies exists|i: int|
        0 <= i < v@.len() && #[trigger] v@[i].0@ == q by {
        if q != k {
            let i = choose|i: int| 0 <= i < old(v)@.len() && #[trigger] old(v)@[i].0@ == q;
            assert(v@[i].0@ == q);
        } else {
            assert(v@[at].0@ == k);
        }
    }
}

/// Collects the texts a response needs, then renders them all at once.
pub struct TextMapBuilder<'a> {
    bundle: &'a Bundle,
    requests: Vec<TextRequest>,
}

impl<'a> TextMapBuilder<'a> {
    /// The bundle the texts are rendered from.
    pub closed spec fn source(&self) -> Bundle {
        *self.bundle
    }

    /// The texts declared so far, in order.
    pub closed spec fn declared(&self) -> Seq<TextRequest> {
        self.requests@
    }

    /// A builder that renders from `bundle` and holds no text yet.
    pub fn new(bundle: &'a Bundle) -> (r: TextMapBuilder<'a>)
        ensures
            r.source() == *bundle,
            r.declared() == Seq::<TextRequest>::empty(),
    {
        TextMapBuilder { bundle, requests: Vec::new() }
    }

    /// Declares the text `text_id`, with `args` where it takes arguments.
    pub fn add_text(&mut self, text_id: String, args: Option<TextArgs>)
        ensures
            final(self).source() == old(self).source(),
            final(self).declared() == old(self).declared().push(
                TextRequest { id: text_id, args },
            ),
    {
        self.requests.push(TextRequest { id: text_id, args });
    }

    /// Renders every declared text: the pairs of id and text, one per
    /// distinct id, and every problem met on the way.
    pub fn build(self) -> (r: (Vec<(String, String)>, Vec<TextError>))
        ensures
            lists(r.0@, text_map(self.source(), self.declared())),
            r.1@.map_values(|e: TextError| e@) == text_errors(self.source(), self.declared()),
    {
        let ghost b = *self.bundle;
        let ghost reqs = self.requests@;
        let mut texts: Vec<(String, String)> = Vec::new();
        let mut errors: Vec<TextError> = Vec::new();
        let mut i: usize = 0;
        while i < self.requests.len()
            invariant
                b == *self.bundle,
                reqs == self.requests@,
                i <= reqs.len(),
                lists(texts@, text_map(b, reqs.take(i as int))),
                errors@.map_values(|e: TextError| e@) == text_errors(b, reqs.take(i as int)),
            decreases reqs.len() - i,
        {
            proof {
                assert(reqs.take(i + 1).drop_last() =~= reqs.take(i as int));
                assert(reqs.take(i + 1).last() == reqs[i as int]);
            }
            let req = &self.requests[i];
            let ghost before = errors@.map_values(|e: TextError| e@);
            let ghost want = rendered(b, req.id@, args_view(req.args));
            let text = match self.bundle.format(req.id.as_str(), &req.args) {
                Some((t, es)) => {
                    let mut j: usize = 0;
                    while j < es.len()
                        invariant
                            j <= es@.len(),
                            want.1 == es@.map_values(
                                |e: String| TextErrorView::Format(req.id@, e@),
                            ),
                            errors@.map_values(|e: TextError| e@) == before + want.1.take(
                                j as int,
                            ),
                        decreases es@.len() - j,
                    {
                        let id = req.id.clone();
                        let detail = es[j].clone();
                        let ghost prev = errors@;
                        errors.push(TextError::Format { id, detail });
                        proof {
                            assert(errors@ == prev.push(TextError::Format { id, detail }));
                            assert(errors@.map_values(|e: TextError| e@) =~= prev.map_values(
                                |e: TextError| e@,
                            ).push(TextErrorView::Format(id@, detail@)));
                            assert(want.1[j as int] == TextErrorView::Format(id@, detail@));
                            assert(want.1.take(j + 1) =~= want.1.take(j as int).push(want.1[j as int]));
                            assert(errors@.map_values(|e: TextError| e@) =~= before + want.1.take(
                                j + 1,
                            ));
                        }
                        j += 1;
                    }
                    proof {
                        assert(want.1.take(es@.len() as int) =~= want.1);
                    }
                    t
                },
                None => {
                    errors.push(TextError::MissingMessage { id: req.id.clone() });
                    proof {
                        assert(errors@.map_values(|e: TextError| e@) =~= before + want.1);
                    }
                    req.id.clone()
                },
            };
            put(&mut texts, req.id.clone(), text, Ghost(text_map(b, reqs.take(i as int))));
            i += 1;
        }
        proof {
            assert(reqs.take(reqs.len() as int) =~= reqs);
        }
        (texts, errors)
    }
}

} // verus!
