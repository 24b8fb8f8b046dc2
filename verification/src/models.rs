//! The speech models the engine knows of, and which one to load.
use vstd::prelude::*;
use vstd::string::*;

verus! {

/// Whether a model's files are on disk and ready to load.
#[derive(Clone, Copy, Debug, PartialEq, Eq, Structural)]
pub enum ModelStatus {
    Available,
    Missing,
}

/// The numeric precision a model's weights are stored in.
#[derive(Clone, Copy, Debug, PartialEq, Eq, Structural)]
pub enum QuantizationType {
    Int8,
    Float32,
}

/// One speech model as the engine reports it.
#[derive(Debug)]
pub struct ModelInfo {
    pub name: String,
    pub status: ModelStatus,
    pub quantization: QuantizationType,
}

/// The transcription settings the user saved: which provider and which model.
#[derive(Debug)]
pub struct TranscriptConfig {
    pub provider: String,
    pub model: String,
}

/// The model can be loaded now.
pub open spec fn is_available(m: ModelInfo) -> bool {
    m.status == ModelStatus::Available
}

/// The model can be loaded now and is the fast 8-bit variant.
pub open spec fn is_available_int8(m: ModelInfo) -> bool {
    m.status == ModelStatus::Available && m.quantization == QuantizationType::Int8
}

/// The first index at or after `start` whose model satisfies `p`.
pub open spec fn first_index_from(ms: Seq<ModelInfo>, p: spec_fn(ModelInfo) -> bool, start: int) -> Option<int>
    decreases ms.len() - start,
{
    if start < 0 || start >= ms.len() {
        None
    } else if p(ms[start]) {
        Some(start)
    } else {
        first_index_from(ms, p, start + 1)
    }
}

/// The first index whose model satisfies `p`.
pub open spec fn first_index(ms: Seq<ModelInfo>, p: spec_fn(ModelInfo) -> bool) -> Option<int> {
    first_index_from(ms, p, 0)
}

/// The model picked when the user configured none (or one that is not
/// available): the first available 8-bit model, else the first available one.
pub open spec fn preferred_index(ms: Seq<ModelInfo>) -> Option<int> {
    match first_index(ms, |m: ModelInfo| is_available_int8(m)) {
        Some(i) => Some(i),
        None => first_index(ms, |m: ModelInfo| is_available(m)),
    }
}

/// Some model in `ms` can be loaded now.
pub open spec fn any_available(ms: Seq<ModelInfo>) -> bool {
    exists|i: int| 0 <= i < ms.len() && is_available(#[trigger] ms[i])
}

/// Some available model in `ms` has the name `name`.
pub open spec fn available_with_name(ms: Seq<ModelInfo>, name: Seq<char>) -> bool {
    exists|i: int| 0 <= i < ms.len() && is_available(#[trigger] ms[i]) && ms[i].name@ == name
}

/// The name of the model to load: the configured one when it is available,
/// else the preferred one; none when no model is available.
pub open spec fn chosen_model_name(ms: Seq<ModelInfo>, configured: Option<Seq<char>>) -> Option<Seq<char>> {
    if !any_available(ms) {
        None
    } else {
        match configured {
            Some(c) if available_with_name(ms, c) => Some(c),
            _ => Some(ms[preferred_index(ms).unwrap()].name@),
        }
    }
}

/// The model name a saved configuration asks for: its model, when it names
/// this provider and a non-empty model.
pub open spec fn configured_model_name(config: Option<(Seq<char>, Seq<char>)>) -> Option<Seq<char>> {
    match config {
        Some((provider, model)) if provider == "sherpaOnnx"@ && model.len() > 0 => Some(model),
        _ => None,
    }
}

/// The view of an optional string.
pub open spec fn opt_view(s: Option<String>) -> Option<Seq<char>> {
    match s {
        Some(t) => Some(t@),
        None => None,
    }
}

/// The provider and model of a fetched configuration, when one came back.
pub open spec fn fetched_config_view(fetched: Result<Option<TranscriptConfig>, String>) -> Option<(Seq<char>, Seq<char>)> {
    match fetched {
        Ok(Some(c)) => Some((c.provider@, c.model@)),
        _ => None,
    }
}

/// A saved configuration names a model to load only when its provider is
/// `sherpaOnnx` and its model is not empty, and then it names that model.
pub proof fn lemma_configured_model_name(provider: Seq<char>, model: Seq<char>)
    ensures
        configured_model_name(Some((provider, model))) is Some ==> provider == "sherpaOnnx"@,
        configured_model_name(Some((provider, model))) is Some ==> model.len() > 0,
        provider == "sherpaOnnx"@ && model.len() > 0 ==> configured_model_name(Some((provider, model)))
            == Some(model),
        configured_model_name(None) is None,
{
}

/// The message given when no model can be loaded.
pub open spec fn no_models_message() -> Seq<char> {
    "No Sherpa models are available. Please download a model to enable fast transcription."@
}

proof fn lemma_first_index_from(ms: Seq<ModelInfo>, p: spec_fn(ModelInfo) -> bool, start: int)
    requires
        0 <= start,
    ensures
        first_index_from(ms, p, start) matches Some(i) ==> start <= i < ms.len() && p(ms[i]) && forall|j: int|
            start <= j < i ==> !p(#[trigger] ms[j]),
        first_index_from(ms, p, start) is None ==> forall|j: int| start <= j < ms.len() ==> !p(#[trigger] ms[j]),
    decreases ms.len() - start,
{
    if start < ms.len() && !p(ms[start]) {
        lemma_first_index_from(ms, p, start + 1);
    }
}

/// `first_index` is the least index satisfying the predicate.
pub proof fn lemma_first_index(ms: Seq<ModelInfo>, p: spec_fn(ModelInfo) -> bool)
    ensures
        first_index(ms, p) matches Some(i) ==> 0 <= i < ms.len() && p(ms[i]) && forall|j: int|
            0 <= j < i ==> !p(#[trigger] ms[j]),
        first_index(ms, p) is None ==> forall|j: int| 0 <= j < ms.len() ==> !p(#[trigger] ms[j]),
{
    lemma_first_index_from(ms, p, 0);
}

/// The preferred model is available whenever some model is, and is 8-bit
/// whenever some available model is.
pub proof fn lemma_preferred_index(ms: Seq<ModelInfo>)
    ensures
        any_available(ms) <==> preferred_index(ms) is Some,
        preferred_index(ms) matches Some(i) ==> 0 <= i < ms.len() && is_available(ms[i]),
        (exists|j: int| 0 <= j < ms.len() && is_available_int8(#[trigger] ms[j]))
            ==> (preferred_index(ms) matches Some(i) && is_available_int8(ms[i])),
{
    let pi = |m: ModelInfo| is_available_int8(m);
    let pa = |m: ModelInfo| is_available(m);
    lemma_first_index(ms, pi);
    lemma_first_index(ms, pa);
    if any_available(ms) {
        let k = choose|k: int| 0 <= k < ms.len() && is_available(#[trigger] ms[k]);
        assert(pa(ms[k]));
    }
    if exists|j: int| 0 <= j < ms.len() && is_available_int8(#[trigger] ms[j]) {
        let k = choose|k: int| 0 <= k < ms.len() && is_available_int8(#[trigger] ms[k]);
        assert(pi(ms[k]));
    }
}

/// The message given when no model can be loaded.
pub fn no_models_error() -> (e: String)
    ensures
        e@ == no_models_message(),
{
    String::from_str("No Sherpa models are available. Please download a model to enable fast transcription.")
}

/// Whether any model in `models` is available, as the
/// "has available models" check decides it.
pub fn has_available_model(models: &Vec<ModelInfo>) -> (r: bool)
    ensures
        r == any_available(models@),
{
    let mut i: usize = 0;
    while i < models.len()
        invariant
            i <= models@.len(),
            forall|j: int| 0 <= j < i ==> !is_available(#[trigger] models@[j]),
        decreases models@.len() - i,
    {
        if models[i].status == ModelStatus::Available {
            assert(is_available(models@[i as int]));
            return true;
        }
        i = i + 1;
    }
    false
}

/// The first index whose model satisfies the test that `int8_only` selects:
/// available and 8-bit, or just available.
fn first_matching(models: &Vec<ModelInfo>, int8_only: bool) -> (r: Option<usize>)
    ensures
        int8_only ==> opt_index(r) == first_index(models@, |m: ModelInfo| is_available_int8(m)),
        !int8_only ==> opt_index(r) == first_index(models@, |m: ModelInfo| is_available(m)),
{
    let ghost p = if int8_only {
        |m: ModelInfo| is_available_int8(m)
    } else {
        |m: ModelInfo| is_available(m)
    };
    let mut i: usize = 0;
    while i < models.len()
        invariant
            i <= models@.len(),
            first_index_from(models@, p, 0) == first_index_from(models@, p, i as int),
            p == (if int8_only {
                |m: ModelInfo| is_available_int8(m)
            } else {
                |m: ModelInfo| is_available(m)
            }),
        decreases models@.len() - i,
    {
        let m = &models[i];
        let hit = m.status == ModelStatus::Available && (!int8_only || m.quantization
            == QuantizationType::Int8);
        assert(hit == p(models@[i as int]));
        if hit {
            return Some(i);
        }
        i = i + 1;
    }
    None
}

/// The index as a mathematical integer.
pub open spec fn opt_index(r: Option<usize>) -> Option<int> {
    match r {
        Some(i) => Some(i as int),
        None => None,
    }
}

/// The model to load when the user configured none: the first available
/// 8-bit model, else the first available model, else none.
pub fn preferred_model_index(models: &Vec<ModelInfo>) -> (r: Option<usize>)
    ensures
        opt_index(r) == preferred_index(models@),
{
    match first_matching(models, true) {
        Some(i) => Some(i),
        None => first_matching(models, false),
    }
}

/// Whether some available model is named `name`.
fn is_available_name(models: &Vec<ModelInfo>, name: &String) -> (r: bool)
    ensures
        r == available_with_name(models@, name@),
{
    let mut i: usize = 0;
    while i < models.len()
        invariant
            i <= models@.len(),
            forall|j: int|
                0 <= j < i ==> !(is_available(#[trigger] models@[j]) && models@[j].name@ == name@),
        decreases models@.len() - i,
    {
        if models[i].status == ModelStatus::Available && models[i].name.eq(name) {
            return true;
        }
        i = i + 1;
    }
    false
}

/// The name of the model to load: `configured` when an available model has
/// that name, else the first available 8-bit model, else the first available
/// model. Fails with the "no models" message when no model is available.
pub fn select_model(models: &Vec<ModelInfo>, configured: Option<String>) -> (r: Result<String, String>)
    ensures
        match r {
            Ok(name) => chosen_model_name(models@, opt_view(configured)) == Some(name@),
            Err(e) => chosen_model_name(models@, opt_view(configured)) is None && e@
                == no_models_message(),
        },
{
    proof {
        lemma_preferred_index(models@);
    }
    if !has_available_model(models) {
        return Err(no_models_error());
    }
    if let Some(c) = configured {
        if is_available_name(models, &c) {
            return Ok(c);
        }
    }
    match preferred_model_index(models) {
        Some(i) => Ok(models[i].name.clone()),
        None => Err(no_models_error()),
    }
}

/// The model the saved configuration asks for: its model when the provider
/// is this one ("sherpaOnnx") and the model is not empty; none otherwise, and
/// none when the configuration could not be fetched or there is none.
pub fn configured_model(fetched: Result<Option<TranscriptConfig>, String>) -> (r: Option<String>)
    ensures
        opt_view(r) == configured_model_name(fetched_config_view(fetched)),
        r matches Some(m) ==> (fetched matches Ok(Some(c)) && c.provider@ == "sherpaOnnx"@ && m@
            == c.model@ && c.model@.len() > 0),
        (fetched matches Ok(Some(c)) && c.provider@ == "sherpaOnnx"@ && c.model@.len() > 0) ==> r is Some,
{
    match fetched {
        Ok(Some(config)) => {
            let ours = String::from_str("sherpaOnnx");
            if config.provider.eq(&ours) && config.model.as_str().is_empty() == false {
                Some(config.model)
            } else {
                None
            }
        },
        _ => None,
    }
}

/// The chosen model is one that is available.
pub proof fn lemma_chosen_is_available(ms: Seq<ModelInfo>, configured: Option<Seq<char>>)
    ensures
        chosen_model_name(ms, configured) matches Some(n) ==> available_with_name(ms, n),
{
    lemma_preferred_index(ms);
    if let Some(n) = chosen_model_name(ms, configured) {
        match configured {
            Some(c) if available_with_name(ms, c) => {},
            _ => {
                let i = preferred_index(ms).unwrap();
                assert(is_available(ms[i]) && ms[i].name@ == n);
            },
        }
    }
}

/// A configured model that is available is the one chosen.
pub proof fn lemma_configured_wins(ms: Seq<ModelInfo>, c: Seq<char>)
    requires
        available_with_name(ms, c),
    ensures
        chosen_model_name(ms, Some(c)) == Some(c),
{
    let i = choose|i: int| 0 <= i < ms.len() && is_available(#[trigger] ms[i]) && ms[i].name@ == c;
    assert(any_available(ms));
}

/// Without a usable configured model, the first available 8-bit model is
/// chosen when there is one, and the first available model otherwise.
pub proof fn lemma_fallback_prefers_int8(ms: Seq<ModelInfo>, configured: Option<Seq<char>>)
    requires
        any_available(ms),
        !(configured matches Some(c) && available_with_name(ms, c)),
    ensures
        (exists|j: int| 0 <= j < ms.len() && is_available_int8(#[trigger] ms[j])) ==> exists|i: int|
            0 <= i < ms.len() && is_available_int8(ms[i]) && chosen_model_name(ms, configured) == Some(
                ms[i].name@,
            ) && forall|j: int| 0 <= j < i ==> !is_available_int8(#[trigger] ms[j]),
        !(exists|j: int| 0 <= j < ms.len() && is_available_int8(#[trigger] ms[j])) ==> exists|i: int|
            0 <= i < ms.len() && is_available(ms[i]) && chosen_model_name(ms, configured) == Some(
                ms[i].name@,
            ) && forall|j: int| 0 <= j < i ==> !is_available(#[trigger] ms[j]),
{
    lemma_preferred_index(ms);
    let pi = |m: ModelInfo| is_available_int8(m);
    let pa = |m: ModelInfo| is_available(m);
    lemma_first_index(ms, pi);
    lemma_first_index(ms, pa);
    let i = preferred_index(ms).unwrap();
    assert(chosen_model_name(ms, configured) == Some(ms[i].name@));
    if exists|j: int| 0 <= j < ms.len() && is_available_int8(#[trigger] ms[j]) {
        let k = choose|k: int| 0 <= k < ms.len() && is_available_int8(#[trigger] ms[k]);
        assert(pi(ms[k]));
        assert forall|j: int| 0 <= j < i implies !is_available_int8(#[trigger] ms[j]) by {
            assert(!pi(ms[j]));
        }
    } else {
        assert forall|j: int| 0 <= j < ms.len() implies !pi(#[trigger] ms[j]) by {
            if pi(ms[j]) {
                assert(is_available_int8(ms[j]));
            }
        }
        let k = choose|k: int| 0 <= k < ms.len() && is_available(#[trigger] ms[k]);
        assert(pa(ms[k]));
        assert forall|j: int| 0 <= j < i implies !is_available(#[trigger] ms[j]) by {
            assert(!pa(ms[j]));
        }
    }
}

/// A model can be chosen exactly when some model is available: the
/// "has available models" answer and the success of model selection agree.
pub proof fn lemma_selectable_iff_available(ms: Seq<ModelInfo>, configured: Option<Seq<char>>)
    ensures
        chosen_model_name(ms, configured) is Some <==> any_available(ms),
{
}

/// The names in a list of strings.
pub open spec fn names_view(v: Seq<String>) -> Seq<Seq<char>> {
    v.map_values(|s: String| s@)
}

/// The names of a list of models.
pub open spec fn model_names(ms: Seq<ModelInfo>) -> Seq<Seq<char>> {
    ms.map_values(|m: ModelInfo| m.name@)
}

/// Prepares a model for a fresh download: drops it from the active
/// downloads and marks every entry of that name missing; everything else is
/// left as it was. The engine keeps each name at most once in either list,
/// and this keeps it so; a name that occurs more often is handled at every
/// occurrence.
pub fn reset_for_retry(active: &mut Vec<String>, models: &mut Vec<ModelInfo>, name: &String)
    ensures
        names_view(final(active)@) == names_view(old(active)@).filter(|s: Seq<char>| s != name@),
        !names_view(final(active)@).contains(name@),
        names_view(old(active)@).no_duplicates() ==> names_view(final(active)@).no_duplicates(),
        model_names(final(models)@) == model_names(old(models)@),
        model_names(old(models)@).no_duplicates() ==> model_names(final(models)@).no_duplicates(),
        final(models)@.len() == old(models)@.len(),
        forall|k: int|
            0 <= k < old(models)@.len() ==> (#[trigger] final(models)@[k]).name == old(models)@[k].name
                && final(models)@[k].quantization == old(models)@[k].quantization
                && final(models)@[k].status == (if old(models)@[k].name@ == name@ {
                ModelStatus::Missing
            } else {
                old(models)@[k].status
            }),
{
    let ghost keep = |s: Seq<char>| s != name@;
    let ghost before = names_view(active@);
    let mut kept: Vec<String> = Vec::new();
    let mut i: usize = 0;
    while i < active.len()
        invariant
            keep == (|s: Seq<char>| s != name@),
            before == names_view(active@),
            i <= active@.len(),
            names_view(kept@) == before.take(i as int).filter(keep),
            forall|k: int| 0 <= k < kept@.len() ==> (#[trigger] kept@[k])@ != name@ && before.take(
                i as int,
            ).contains(kept@[k]@),
            before.no_duplicates() ==> names_view(kept@).no_duplicates(),
        decreases active@.len() - i,
    {
        proof {
            reveal(Seq::filter);
            assert(before.take(i + 1).drop_last() =~= before.take(i as int));
        }
        if !active[i].eq(name) {
            let ghost old_kept = kept@;
            kept.push(active[i].clone());
            assert(names_view(kept@) =~= names_view(old_kept).push(active@[i as int]@));
            proof {
                assert forall|k: int| 0 <= k < kept@.len() implies (#[trigger] kept@[k])@ != name@
                    && before.take(i + 1).contains(kept@[k]@) by {
                    if k < old_kept.len() {
                        let t = choose|t: int| 0 <= t < i && before.take(i as int)[t] == old_kept[k]@;
                        assert(before.take(i + 1)[t] == kept@[k]@);
                    } else {
                        assert(before.take(i + 1)[i as int] == kept@[k]@);
                    }
                }
                if before.no_duplicates() {
                    assert forall|a: int, b: int|
                        0 <= a < names_view(kept@).len() && 0 <= b < names_view(kept@).len() && a
                            != b implies names_view(kept@)[a] != names_view(kept@)[b] by {
                        if a == old_kept.len() || b == old_kept.len() {
                            let o = if a == old_kept.len() { b } else { a };
                            let t = choose|t: int| 0 <= t < i && before.take(i as int)[t] == old_kept[o]@;
                            assert(before[t] != before[i as int]);
                        } else {
                            assert(names_view(old_kept)[a] == names_view(kept@)[a]);
                            assert(names_view(old_kept)[b] == names_view(kept@)[b]);
                        }
                    }
                }
            }
        } else {
            proof {
                assert forall|k: int| 0 <= k < kept@.len() implies (#[trigger] kept@[k])@ != name@
                    && before.take(i + 1).contains(kept@[k]@) by {
                    let t = choose|t: int| 0 <= t < i && before.take(i as int)[t] == kept@[k]@;
                    assert(before.take(i + 1)[t] == kept@[k]@);
                }
            }
        }
        i = i + 1;
    }
    assert(before.take(active@.len() as int) =~= before);
    assert(!names_view(kept@).contains(name@)) by {
        if names_view(kept@).contains(name@) {
            let k = choose|k: int| 0 <= k < names_view(kept@).len() && names_view(kept@)[k] == name@;
            assert(kept@[k]@ == name@);
        }
    }
    *active = kept;
    let ghost orig = models@;
    let mut j: usize = 0;
    while j < models.len()
        invariant
            j <= models@.len(),
            models@.len() == orig.len(),
            forall|k: int|
                0 <= k < orig.len() ==> (#[trigger] models@[k]).name == orig[k].name
                    && models@[k].quantization == orig[k].quantization && models@[k].status == (
                if k < j && orig[k].name@ == name@ {
                    ModelStatus::Missing
                } else {
                    orig[k].status
                }),
        decreases models@.len() - j,
    {
        if models[j].name.eq(name) {
            models[j].status = ModelStatus::Missing;
        }
        j = j + 1;
    }
    assert(model_names(models@) =~= model_names(orig));
}

} // verus!
