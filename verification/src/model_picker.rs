//! The models that a user may pick from: those that speak an API of the two families that are
//! supported, by provider.

use crate::model::Model;
use crate::text::{
    lemma_text_lt_total, lemma_text_lt_transitive, same_text, text_before, text_lt,
};
use vstd::prelude::*;

verus! {

/// A model in the list.
#[derive(Debug, PartialEq, Eq)]
pub struct ModelEntry {
    pub id: String,
    pub name: String,
}

impl Clone for ModelEntry {
    fn clone(&self) -> (r: ModelEntry)
        ensures
            r == *self,
    {
        ModelEntry { id: self.id.clone(), name: self.name.clone() }
    }
}

/// The models of one provider.
#[derive(Debug, PartialEq, Eq)]
pub struct ProviderGroup {
    pub provider: String,
    /// Whether there are credentials for it.
    pub has_credential: bool,
    pub models: Vec<ModelEntry>,
}

/// The value of a model in the list.
pub struct EntryView {
    pub id: Seq<char>,
    pub name: Seq<char>,
}

impl View for ModelEntry {
    type V = EntryView;

    open spec fn view(&self) -> EntryView {
        EntryView { id: self.id@, name: self.name@ }
    }
}

/// The values of models in the list.
pub open spec fn model_views(models: Seq<ModelEntry>) -> Seq<EntryView> {
    Seq::new(models.len(), |i: int| models[i]@)
}

// ---------------------------------------------------------------------------------------------
// What the list holds
// ---------------------------------------------------------------------------------------------

/// The API is of a family that is supported.
pub open spec fn supported_api(api: Seq<char>) -> bool {
    api == "openai-completions"@ || api == "openai-responses"@ || api == "openai-codex-responses"@
        || api == "anthropic-messages"@
}

/// The model is listed under `provider`.
pub open spec fn listed_under(model: Model, provider: Seq<char>) -> bool {
    supported_api(model.api@) && model.provider@ == provider
}

/// The models that are listed under `provider`, in the order in which they come.
pub open spec fn entries_under(models: Seq<Model>, provider: Seq<char>) -> Seq<EntryView>
    decreases models.len(),
{
    if models.len() == 0 {
        Seq::empty()
    } else {
        let front = entries_under(models.drop_last(), provider);
        if listed_under(models.last(), provider) {
            front.push(EntryView { id: models.last().id@, name: models.last().name@ })
        } else {
            front
        }
    }
}

/// The entries with the id `id`, in their order.
pub open spec fn with_id(entries: Seq<EntryView>, id: Seq<char>) -> Seq<EntryView>
    decreases entries.len(),
{
    if entries.len() == 0 {
        Seq::empty()
    } else {
        let front = with_id(entries.drop_last(), id);
        if entries.last().id == id {
            front.push(entries.last())
        } else {
            front
        }
    }
}

/// The entries stand in the order of their ids.
pub open spec fn in_order(entries: Seq<EntryView>) -> bool {
    forall|i: int, j: int|
        0 <= i < j < entries.len() ==> !text_lt(
            (#[trigger] entries[j]).id,
            (#[trigger] entries[i]).id,
        )
}

/// `sorted` holds the entries in the order of their ids, and those with one id in the order in which
/// they came.
pub open spec fn sorts(sorted: Seq<EntryView>, entries: Seq<EntryView>) -> bool {
    in_order(sorted) && forall|id: Seq<char>| #[trigger]
        with_id(sorted, id) == with_id(entries, id)
}

/// A provider with its models.
pub struct GroupView {
    pub provider: Seq<char>,
    pub models: Seq<EntryView>,
}

/// `groups` are the models by provider: a group for each provider that has any, in the order of
/// their names, and in each the models of that provider and no others.
pub open spec fn groups_up(groups: Seq<GroupView>, models: Seq<Model>) -> bool {
    &&& forall|i: int, j: int|
        0 <= i < j < groups.len() ==> text_lt(
            (#[trigger] groups[i]).provider,
            (#[trigger] groups[j]).provider,
        )
    &&& forall|i: int|
        0 <= i < groups.len() ==> sorts(
            (#[trigger] groups[i]).models,
            entries_under(models, groups[i].provider),
        ) && groups[i].models.len() > 0
    &&& forall|k: int|
        0 <= k < models.len() && supported_api((#[trigger] models[k]).api@) ==> has_group(
            groups,
            models[k].provider@,
        )
}

/// There is a group for `provider`.
pub open spec fn has_group(groups: Seq<GroupView>, provider: Seq<char>) -> bool {
    exists|i: int| 0 <= i < groups.len() && (#[trigger] groups[i]).provider == provider
}

/// A group without what is known of credentials.
struct Gathered {
    provider: String,
    models: Vec<ModelEntry>,
}

impl View for Gathered {
    type V = GroupView;

    closed spec fn view(&self) -> GroupView {
        GroupView { provider: self.provider@, models: model_views(self.models@) }
    }
}

spec fn gathered_views(groups: Seq<Gathered>) -> Seq<GroupView> {
    Seq::new(groups.len(), |i: int| groups[i]@)
}

/// The values of groups.
pub open spec fn group_views(groups: Seq<ProviderGroup>) -> Seq<GroupView> {
    Seq::new(
        groups.len(),
        |i: int|
            GroupView { provider: groups[i].provider@, models: model_views(groups[i].models@) },
    )
}

// ---------------------------------------------------------------------------------------------
// Putting a model in its place
// ---------------------------------------------------------------------------------------------

/// What comes after something later comes after it too.
proof fn lemma_later(a: Seq<char>, b: Seq<char>, c: Seq<char>)
    requires
        text_lt(a, b),
        !text_lt(c, b),
    ensures
        text_lt(a, c),
{
    lemma_text_lt_total(b, c);
    if text_lt(b, c) {
        lemma_text_lt_transitive(a, b, c);
    }
}

/// The entries with an id, of two runs in a row.
proof fn lemma_with_id_concat(a: Seq<EntryView>, b: Seq<EntryView>, id: Seq<char>)
    ensures
        with_id(a + b, id) == with_id(a, id) + with_id(b, id),
    decreases b.len(),
{
    if b.len() == 0 {
        assert(a + b =~= a);
        assert(with_id(a, id) + with_id(b, id) =~= with_id(a, id));
    } else {
        assert((a + b).drop_last() =~= a + b.drop_last());
        lemma_with_id_concat(a, b.drop_last(), id);
        assert(with_id(a + b, id) =~= with_id(a, id) + with_id(b, id));
    }
}

/// Entries of which none has the id.
proof fn lemma_with_id_none(entries: Seq<EntryView>, id: Seq<char>)
    requires
        forall|i: int| 0 <= i < entries.len() ==> (#[trigger] entries[i]).id != id,
    ensures
        with_id(entries, id) == Seq::<EntryView>::empty(),
    decreases entries.len(),
{
    if entries.len() > 0 {
        let front = entries.drop_last();
        assert(forall|i: int| 0 <= i < front.len() ==> #[trigger] front[i] == entries[i]);
        lemma_with_id_none(front, id);
    }
}

/// An entry put behind all that do not come after it is in its place.
proof fn lemma_insert_sorts(
    sorted: Seq<EntryView>,
    entries: Seq<EntryView>,
    pos: int,
    entry: EntryView,
)
    requires
        sorts(sorted, entries),
        0 <= pos <= sorted.len(),
        forall|i: int| 0 <= i < pos ==> !text_lt(entry.id, (#[trigger] sorted[i]).id),
        forall|i: int| pos <= i < sorted.len() ==> text_lt(entry.id, (#[trigger] sorted[i]).id),
    ensures
        sorts(sorted.insert(pos, entry), entries.push(entry)),
{
    let more = sorted.insert(pos, entry);
    assert forall|i: int, j: int| 0 <= i < j < more.len() implies !text_lt(
        (#[trigger] more[j]).id,
        (#[trigger] more[i]).id,
    ) by {
        let old_i = if i < pos {
            i
        } else {
            i - 1
        };
        let old_j = if j < pos {
            j
        } else {
            j - 1
        };
        if i != pos {
            assert(more[i] == sorted[old_i]);
        }
        if j != pos {
            assert(more[j] == sorted[old_j]);
        }
        lemma_text_lt_total(more[j].id, more[i].id);
    }
    assert forall|id: Seq<char>| #[trigger] with_id(more, id) == with_id(entries.push(entry), id) by {
        let before = sorted.take(pos);
        let behind = sorted.skip(pos);
        let one = seq![entry];
        assert(sorted =~= before + behind);
        assert(more =~= (before + one) + behind);
        lemma_with_id_concat(before, behind, id);
        lemma_with_id_concat(before + one, behind, id);
        lemma_with_id_concat(before, one, id);
        lemma_with_id_concat(entries, one, id);
        assert(entries.push(entry) =~= entries + one);
        if entry.id == id {
            assert forall|i: int| 0 <= i < behind.len() implies (#[trigger] behind[i]).id != id by {
                assert(behind[i] == sorted[pos + i]);
                lemma_text_lt_total(entry.id, behind[i].id);
            }
            lemma_with_id_none(behind, id);
            assert(with_id(more, id) =~= with_id(entries.push(entry), id));
        } else {
            lemma_with_id_none(one, id);
            assert(with_id(more, id) =~= with_id(entries.push(entry), id));
        }
    }
}

/// Puts an entry in its place.
fn insert_entry(models: &mut Vec<ModelEntry>, entry: ModelEntry, Ghost(entries): Ghost<
    Seq<EntryView>,
>)
    requires
        sorts(model_views(old(models)@), entries),
    ensures
        sorts(model_views(final(models)@), entries.push(entry@)),
        final(models)@.len() == old(models)@.len() + 1,
{
    let ghost shown = model_views(models@);
    let mut pos: usize = 0;
    while pos < models.len() && !text_before(entry.id.as_str(), models[pos].id.as_str())
        invariant
            pos <= models@.len(),
            shown == model_views(models@),
            forall|i: int| 0 <= i < pos ==> !text_lt(entry@.id, (#[trigger] shown[i]).id),
        decreases models@.len() - pos,
    {
        pos += 1;
    }
    proof {
        assert forall|i: int| pos <= i < shown.len() implies text_lt(
            entry@.id,
            (#[trigger] shown[i]).id,
        ) by {
            assert(text_lt(entry@.id, shown[pos as int].id));
            if i > pos {
                lemma_later(entry@.id, shown[pos as int].id, shown[i].id);
            }
        }
        lemma_insert_sorts(shown, entries, pos as int, entry@);
    }
    let ghost added = entry@;
    models.insert(pos, entry);
    assert(model_views(models@) =~= shown.insert(pos as int, added));
}

// ---------------------------------------------------------------------------------------------
// Putting a model into its group
// ---------------------------------------------------------------------------------------------

/// What one model more means for a provider.
proof fn lemma_entries_under_push(models: Seq<Model>, model: Model, provider: Seq<char>)
    ensures
        entries_under(models.push(model), provider) == if listed_under(model, provider) {
            entries_under(models, provider).push(EntryView { id: model.id@, name: model.name@ })
        } else {
            entries_under(models, provider)
        },
{
    assert(models.push(model).drop_last() =~= models);
}

/// A provider under which nothing is listed has no entries.
proof fn lemma_entries_under_none(models: Seq<Model>, provider: Seq<char>)
    requires
        forall|k: int| 0 <= k < models.len() ==> !listed_under(#[trigger] models[k], provider),
    ensures
        entries_under(models, provider) == Seq::<EntryView>::empty(),
    decreases models.len(),
{
    if models.len() > 0 {
        let front = models.drop_last();
        assert(forall|k: int| 0 <= k < front.len() ==> #[trigger] front[k] == models[k]);
        lemma_entries_under_none(front, provider);
    }
}

/// A group stays one when others come and go.
proof fn lemma_has_group(groups: Seq<GroupView>, more: Seq<GroupView>, provider: Seq<char>)
    requires
        has_group(groups, provider),
        forall|i: int|
            0 <= i < groups.len() ==> has_group(more, (#[trigger] groups[i]).provider),
    ensures
        has_group(more, provider),
{
    let i = choose|i: int| 0 <= i < groups.len() && (#[trigger] groups[i]).provider == provider;
    assert(has_group(more, groups[i].provider));
}

/// A model that is not supported changes nothing.
proof fn lemma_unsupported(groups: Seq<GroupView>, models: Seq<Model>, model: Model)
    requires
        groups_up(groups, models),
        !supported_api(model.api@),
    ensures
        groups_up(groups, models.push(model)),
{
    let more = models.push(model);
    assert forall|i: int| 0 <= i < groups.len() implies sorts(
        (#[trigger] groups[i]).models,
        entries_under(more, groups[i].provider),
    ) && groups[i].models.len() > 0 by {
        lemma_entries_under_push(models, model, groups[i].provider);
    }
    assert forall|k: int|
        0 <= k < more.len() && supported_api((#[trigger] more[k]).api@) implies has_group(
        groups,
        more[k].provider@,
    ) by {
        assert(more[k] == models[k]);
    }
}

/// A group that takes in a model keeps the whole in order.
proof fn lemma_joins_group(
    groups: Seq<GroupView>,
    models: Seq<Model>,
    model: Model,
    pos: int,
    group: GroupView,
)
    requires
        groups_up(groups, models),
        supported_api(model.api@),
        0 <= pos < groups.len(),
        groups[pos].provider == model.provider@,
        group.provider == model.provider@,
        group.models.len() > 0,
        sorts(
            group.models,
            entries_under(models, model.provider@).push(
                EntryView { id: model.id@, name: model.name@ },
            ),
        ),
    ensures
        groups_up(groups.update(pos, group), models.push(model)),
{
    let new = groups.update(pos, group);
    let more = models.push(model);
    assert(forall|i: int| 0 <= i < new.len() ==> (#[trigger] new[i]).provider == groups[i].provider);
    assert forall|i: int, j: int| 0 <= i < j < new.len() implies text_lt(
        (#[trigger] new[i]).provider,
        (#[trigger] new[j]).provider,
    ) by {
        assert(text_lt(groups[i].provider, groups[j].provider));
    }
    assert forall|i: int| 0 <= i < new.len() implies sorts(
        (#[trigger] new[i]).models,
        entries_under(more, new[i].provider),
    ) && new[i].models.len() > 0 by {
        lemma_entries_under_push(models, model, new[i].provider);
        if i != pos {
            assert(new[i] == groups[i]);
            if i < pos {
                assert(text_lt(groups[i].provider, groups[pos].provider));
            } else {
                assert(text_lt(groups[pos].provider, groups[i].provider));
            }
            lemma_text_lt_total(groups[i].provider, groups[pos].provider);
        }
    }
    assert forall|i: int| 0 <= i < groups.len() implies has_group(
        new,
        (#[trigger] groups[i]).provider,
    ) by {
        assert(new[i].provider == groups[i].provider);
    }
    assert forall|k: int|
        0 <= k < more.len() && supported_api((#[trigger] more[k]).api@) implies has_group(
        new,
        more[k].provider@,
    ) by {
        if k < models.len() {
            assert(more[k] == models[k]);
            lemma_has_group(groups, new, models[k].provider@);
        } else {
            assert(new[pos].provider == model.provider@);
        }
    }
}

/// A group for a provider that had none, in its place, keeps the whole in order.
proof fn lemma_new_group(
    groups: Seq<GroupView>,
    models: Seq<Model>,
    model: Model,
    pos: int,
    group: GroupView,
)
    requires
        groups_up(groups, models),
        supported_api(model.api@),
        0 <= pos <= groups.len(),
        forall|i: int| 0 <= i < pos ==> text_lt((#[trigger] groups[i]).provider, model.provider@),
        forall|i: int|
            pos <= i < groups.len() ==> text_lt(model.provider@, (#[trigger] groups[i]).provider),
        group.provider == model.provider@,
        group.models.len() > 0,
        sorts(
            group.models,
            Seq::<EntryView>::empty().push(EntryView { id: model.id@, name: model.name@ }),
        ),
    ensures
        groups_up(groups.insert(pos, group), models.push(model)),
{
    let new = groups.insert(pos, group);
    let more = models.push(model);
    let provider = model.provider@;
    assert forall|i: int| 0 <= i < groups.len() implies (#[trigger] groups[i]).provider
        != provider by {
        lemma_text_lt_total(groups[i].provider, provider);
    }
    assert forall|k: int| 0 <= k < models.len() implies !listed_under(
        #[trigger] models[k],
        provider,
    ) by {
        if listed_under(models[k], provider) {
            assert(has_group(groups, provider));
        }
    }
    lemma_entries_under_none(models, provider);
    assert forall|i: int, j: int| 0 <= i < j < new.len() implies text_lt(
        (#[trigger] new[i]).provider,
        (#[trigger] new[j]).provider,
    ) by {
        let old_i = if i < pos {
            i
        } else {
            i - 1
        };
        let old_j = if j < pos {
            j
        } else {
            j - 1
        };
        if i != pos {
            assert(new[i] == groups[old_i]);
        }
        if j != pos {
            assert(new[j] == groups[old_j]);
        }
    }
    assert forall|i: int| 0 <= i < new.len() implies sorts(
        (#[trigger] new[i]).models,
        entries_under(more, new[i].provider),
    ) && new[i].models.len() > 0 by {
        lemma_entries_under_push(models, model, new[i].provider);
        let old_i = if i < pos {
            i
        } else {
            i - 1
        };
        if i != pos {
            assert(new[i] == groups[old_i]);
        }
    }
    assert forall|i: int| 0 <= i < groups.len() implies has_group(
        new,
        (#[trigger] groups[i]).provider,
    ) by {
        let new_i = if i < pos {
            i
        } else {
            i + 1
        };
        assert(new[new_i] == groups[i]);
    }
    assert forall|k: int|
        0 <= k < more.len() && supported_api((#[trigger] more[k]).api@) implies has_group(
        new,
        more[k].provider@,
    ) by {
        if k < models.len() {
            assert(more[k] == models[k]);
            lemma_has_group(groups, new, models[k].provider@);
        } else {
            assert(new[pos].provider == provider);
        }
    }
}

/// Whether the API is of a family that is supported.
fn is_supported(api: &str) -> (r: bool)
    ensures
        r == supported_api(api@),
        r == (api@ == "openai-completions"@ || api@ == "openai-responses"@ || api@
            == "openai-codex-responses"@ || api@ == "anthropic-messages"@),
{
    same_text(api, "openai-completions") || same_text(api, "openai-responses") || same_text(
        api,
        "openai-codex-responses",
    ) || same_text(api, "anthropic-messages")
}

/// Puts a model into its group.
fn add_model(groups: &mut Vec<Gathered>, model: Model, Ghost(models): Ghost<Seq<Model>>)
    requires
        groups_up(gathered_views(old(groups)@), models),
    ensures
        groups_up(gathered_views(final(groups)@), models.push(model)),
{
    let ghost shown = gathered_views(groups@);
    if !is_supported(model.api.as_str()) {
        proof {
            lemma_unsupported(shown, models, model);
        }
        return;
    }
    let ghost provider = model.provider@;
    let ghost whole = model;
    let mut pos: usize = 0;
    while pos < groups.len() && text_before(
        groups[pos].provider.as_str(),
        model.provider.as_str(),
    )
        invariant
            pos <= groups@.len(),
            shown == gathered_views(groups@),
            provider == model.provider@,
            forall|i: int| 0 <= i < pos ==> text_lt((#[trigger] shown[i]).provider, provider),
        decreases groups@.len() - pos,
    {
        pos += 1;
    }
    let entry = ModelEntry { id: model.id, name: model.name };
    if pos < groups.len() && same_text(groups[pos].provider.as_str(), model.provider.as_str()) {
        assert(groups@[pos as int]@ == shown[pos as int]);
        let mut group = groups.remove(pos);
        insert_entry(&mut group.models, entry, Ghost(entries_under(models, provider)));
        let ghost changed = group@;
        groups.insert(pos, group);
        proof {
            assert(gathered_views(groups@) =~= shown.update(pos as int, changed));
            lemma_joins_group(shown, models, whole, pos as int, changed);
        }
    } else {
        let mut entries: Vec<ModelEntry> = Vec::new();
        proof {
            let none = Seq::<EntryView>::empty();
            assert(model_views(entries@) =~= none);
            assert(sorts(none, none));
        }
        insert_entry(&mut entries, entry, Ghost(Seq::empty()));
        proof {
            assert forall|i: int| pos <= i < shown.len() implies text_lt(
                provider,
                (#[trigger] shown[i]).provider,
            ) by {
                let at = shown[pos as int].provider;
                assert(!text_lt(at, provider));
                assert(at != provider);
                lemma_text_lt_total(at, provider);
                if i > pos {
                    assert(text_lt(shown[pos as int].provider, shown[i].provider));
                    lemma_text_lt_transitive(provider, at, shown[i].provider);
                }
            }
        }
        let group = Gathered { provider: model.provider, models: entries };
        let ghost added = group@;
        groups.insert(pos, group);
        proof {
            assert(gathered_views(groups@) =~= shown.insert(pos as int, added));
            lemma_new_group(shown, models, whole, pos as int, added);
        }
    }
}

// ---------------------------------------------------------------------------------------------
// The list
// ---------------------------------------------------------------------------------------------

/// `has_credential` may have said `answer` of `provider`.
pub open spec fn says<F: Fn(&str) -> bool>(
    has_credential: F,
    provider: Seq<char>,
    answer: bool,
) -> bool {
    exists|name: &str| name@ == provider && #[trigger] has_credential.ensures((name,), answer)
}

/// The models to pick from, by provider; `has_credential` is asked once for each provider.
pub fn catalog_with<F: Fn(&str) -> bool>(models: Vec<Model>, has_credential: F) -> (r: Vec<
    ProviderGroup,
>)
    requires
        forall|name: &str| #[trigger] has_credential.requires((name,)),
    ensures
        groups_up(group_views(r@), models@),
        forall|i: int|
            0 <= i < r@.len() ==> says(
                has_credential,
                (#[trigger] r@[i]).provider@,
                r@[i].has_credential,
            ),
{
    let ghost all = models@;
    let mut groups: Vec<Gathered> = Vec::new();
    assert(all.take(0) =~= Seq::<Model>::empty());
    for model in it: models
        invariant
            it.seq() == all,
            groups_up(gathered_views(groups@), all.take(it.index())),
    {
        let ghost before = all.take(it.index());
        assert(all.take(it.index() + 1) =~= before.push(model));
        add_model(&mut groups, model, Ghost(before));
    }
    assert(all.take(all.len() as int) =~= all);
    let ghost shown = gathered_views(groups@);
    let ghost gathered = groups@;
    let mut out: Vec<ProviderGroup> = Vec::new();
    for group in it: groups
        invariant
            it.seq() == gathered,
            shown == gathered_views(gathered),
            group_views(out@) == shown.take(it.index()),
            forall|name: &str| #[trigger] has_credential.requires((name,)),
            forall|i: int|
                0 <= i < out@.len() ==> says(
                    has_credential,
                    (#[trigger] out@[i]).provider@,
                    out@[i].has_credential,
                ),
    {
        let ghost before = out@;
        let known = has_credential(group.provider.as_str());
        assert(says(has_credential, group.provider@, known));
        out.push(
            ProviderGroup { provider: group.provider, has_credential: known, models: group.models },
        );
        assert(group_views(out@) =~= group_views(before).push(group@));
        assert(shown.take(it.index() + 1) =~= shown.take(it.index()).push(group@));
    }
    assert(shown.take(shown.len() as int) =~= shown);
    out
}

// ---------------------------------------------------------------------------------------------
// Laws
// ---------------------------------------------------------------------------------------------

/// An entry is among those with its id if and only if it is among all.
proof fn lemma_with_id_contains(entries: Seq<EntryView>, entry: EntryView)
    ensures
        with_id(entries, entry.id).contains(entry) <==> entries.contains(entry),
    decreases entries.len(),
{
    if entries.len() > 0 {
        let front = entries.drop_last();
        let last = entries.last();
        lemma_with_id_contains(front, entry);
        assert(entries =~= front.push(last));
        assert(entries.contains(entry) <==> front.contains(entry) || entry == last) by {
            if front.contains(entry) {
                let i = choose|i: int| 0 <= i < front.len() && front[i] == entry;
                assert(entries[i] == entry);
            }
            if entry == last {
                assert(entries[entries.len() - 1] == entry);
            }
            if entries.contains(entry) {
                let i = choose|i: int| 0 <= i < entries.len() && entries[i] == entry;
                if i < front.len() {
                    assert(front[i] == entry);
                }
            }
        }
        let kept = with_id(front, entry.id);
        if last.id == entry.id {
            assert(kept.push(last).contains(entry) <==> kept.contains(entry) || entry == last) by {
                if kept.contains(entry) {
                    let i = choose|i: int| 0 <= i < kept.len() && kept[i] == entry;
                    assert(kept.push(last)[i] == entry);
                }
                assert(kept.push(last)[kept.len() as int] == last);
                if kept.push(last).contains(entry) {
                    let i = choose|i: int|
                        0 <= i < kept.push(last).len() && kept.push(last)[i] == entry;
                    if i < kept.len() {
                        assert(kept[i] == entry);
                    }
                }
            }
        }
    }
}

/// An entry is under a provider if and only if a model stands for it that is listed there.
proof fn lemma_entries_under_contains(models: Seq<Model>, provider: Seq<char>, entry: EntryView)
    ensures
        entries_under(models, provider).contains(entry) <==> exists|k: int|
            0 <= k < models.len() && #[trigger] gives_entry(models[k], provider, entry),
    decreases models.len(),
{
    if models.len() > 0 {
        let front = models.drop_last();
        let last = models.last();
        lemma_entries_under_contains(front, provider, entry);
        let kept = entries_under(front, provider);
        let e = EntryView { id: last.id@, name: last.name@ };
        if listed_under(last, provider) {
            assert(kept.push(e).contains(entry) <==> kept.contains(entry) || entry == e) by {
                if kept.contains(entry) {
                    let i = choose|i: int| 0 <= i < kept.len() && kept[i] == entry;
                    assert(kept.push(e)[i] == entry);
                }
                assert(kept.push(e)[kept.len() as int] == e);
                if kept.push(e).contains(entry) {
                    let i = choose|i: int| 0 <= i < kept.push(e).len() && kept.push(e)[i] == entry;
                    if i < kept.len() {
                        assert(kept[i] == entry);
                    }
                }
            }
        }
        let n = models.len() - 1;
        assert(models[n] == last);
        if exists|k: int|
            0 <= k < front.len() && #[trigger] gives_entry(front[k], provider, entry) {
            let k = choose|k: int|
                0 <= k < front.len() && #[trigger] gives_entry(front[k], provider, entry);
            assert(gives_entry(models[k], provider, entry));
        }
        if exists|k: int|
            0 <= k < models.len() && #[trigger] gives_entry(models[k], provider, entry) {
            let k = choose|k: int|
                0 <= k < models.len() && #[trigger] gives_entry(models[k], provider, entry);
            if k < n {
                assert(gives_entry(front[k], provider, entry));
            }
        }
        if gives_entry(last, provider, entry) {
            assert(gives_entry(models[n], provider, entry));
        }
    }
}

/// The model is listed under `provider` as `entry`.
pub open spec fn gives_entry(model: Model, provider: Seq<char>, entry: EntryView) -> bool {
    listed_under(model, provider) && entry.id == model.id@ && entry.name == model.name@
}

/// Just the models of a provider whose API is supported are in its group: no other is there, and
/// none is missing.
pub proof fn law_groups_hold_supported_models(
    groups: Seq<GroupView>,
    models: Seq<Model>,
    i: int,
    entry: EntryView,
)
    requires
        groups_up(groups, models),
        0 <= i < groups.len(),
    ensures
        groups[i].models.contains(entry) <==> exists|k: int|
            0 <= k < models.len() && #[trigger] gives_entry(models[k], groups[i].provider, entry),
{
    let group = groups[i];
    let entries = entries_under(models, group.provider);
    assert(sorts(group.models, entries));
    lemma_with_id_contains(group.models, entry);
    lemma_with_id_contains(entries, entry);
    assert(with_id(group.models, entry.id) == with_id(entries, entry.id));
    lemma_entries_under_contains(models, group.provider, entry);
}

/// There is one order for given entries.
proof fn lemma_order_is_unique(a: Seq<EntryView>, b: Seq<EntryView>)
    requires
        in_order(a),
        in_order(b),
        forall|id: Seq<char>| #[trigger] with_id(a, id) == with_id(b, id),
    ensures
        a == b,
    decreases a.len(),
{
    if a.len() == 0 {
        if b.len() > 0 {
            assert(with_id(a, b.last().id) == with_id(b, b.last().id));
        }
        assert(a =~= b);
    } else {
        let x = a.last();
        assert(with_id(a, x.id) == with_id(b, x.id));
        assert(with_id(a, x.id).len() > 0);
        assert(b.len() > 0);
        let y = b.last();
        assert(with_id(a, y.id) == with_id(b, y.id));
        lemma_last_is_last(b, x.id);
        lemma_last_is_last(a, y.id);
        lemma_text_lt_total(x.id, y.id);
        assert(x.id == y.id);
        assert(with_id(a, x.id).last() == x);
        assert(with_id(b, x.id).last() == y);
        let front_a = a.drop_last();
        let front_b = b.drop_last();
        assert forall|id: Seq<char>| #[trigger] with_id(front_a, id) == with_id(front_b, id) by {
            assert(with_id(a, id) == with_id(b, id));
            if id == x.id {
                assert(with_id(front_a, id) =~= with_id(a, id).drop_last());
                assert(with_id(front_b, id) =~= with_id(b, id).drop_last());
            }
        }
        lemma_order_is_unique(front_a, front_b);
        assert(a =~= front_a.push(x));
        assert(b =~= front_b.push(y));
    }
}

/// No id among entries in order comes behind that of the last one.
proof fn lemma_last_is_last(entries: Seq<EntryView>, id: Seq<char>)
    requires
        in_order(entries),
        entries.len() > 0,
        with_id(entries, id).len() > 0,
    ensures
        !text_lt(entries.last().id, id),
{
    let found = with_id(entries, id)[0];
    lemma_with_id_ids(entries, id);
    assert(found.id == id);
    assert(with_id(entries, id).contains(found));
    lemma_with_id_contains(entries, found);
    let i = choose|i: int| 0 <= i < entries.len() && entries[i] == found;
    let n = entries.len() - 1;
    if i < n {
        assert(!text_lt(entries[n].id, entries[i].id));
    } else {
        lemma_text_lt_total(id, id);
    }
}

/// The entries with an id have that id.
proof fn lemma_with_id_ids(entries: Seq<EntryView>, id: Seq<char>)
    ensures
        forall|i: int| 0 <= i < with_id(entries, id).len() ==> (#[trigger] with_id(entries, id)[i]).id
            == id,
    decreases entries.len(),
{
    if entries.len() > 0 {
        let front = with_id(entries.drop_last(), id);
        lemma_with_id_ids(entries.drop_last(), id);
        assert forall|i: int| 0 <= i < with_id(entries, id).len() implies (
        #[trigger] with_id(entries, id)[i]).id == id by {
            if i < front.len() {
                assert(with_id(entries, id)[i] == front[i]);
            }
        }
    }
}

/// A provider has a group if and only if a model is listed under it.
pub proof fn law_group_for_each_provider(
    groups: Seq<GroupView>,
    models: Seq<Model>,
    provider: Seq<char>,
)
    requires
        groups_up(groups, models),
    ensures
        has_group(groups, provider) <==> exists|k: int|
            0 <= k < models.len() && listed_under(#[trigger] models[k], provider),
{
    if has_group(groups, provider) {
        let i = choose|i: int| 0 <= i < groups.len() && (#[trigger] groups[i]).provider == provider;
        let entry = groups[i].models[0];
        assert(groups[i].models.contains(entry));
        law_groups_hold_supported_models(groups, models, i, entry);
        let k = choose|k: int|
            0 <= k < models.len() && #[trigger] gives_entry(models[k], provider, entry);
        assert(listed_under(models[k], provider));
    }
}

/// Two lists of groups in strict order with the same providers have them in the same places.
proof fn lemma_providers_are_unique(a: Seq<GroupView>, b: Seq<GroupView>)
    requires
        forall|i: int, j: int|
            0 <= i < j < a.len() ==> text_lt(
                (#[trigger] a[i]).provider,
                (#[trigger] a[j]).provider,
            ),
        forall|i: int, j: int|
            0 <= i < j < b.len() ==> text_lt(
                (#[trigger] b[i]).provider,
                (#[trigger] b[j]).provider,
            ),
        forall|p: Seq<char>| #[trigger] has_group(a, p) <==> has_group(b, p),
    ensures
        a.len() == b.len(),
        forall|i: int| 0 <= i < a.len() ==> (#[trigger] a[i]).provider == b[i].provider,
    decreases a.len(),
{
    if a.len() == 0 {
        if b.len() > 0 {
            assert(b[0].provider == b[0].provider);
            assert(has_group(b, b[0].provider));
            assert(has_group(a, b[0].provider));
        }
    } else {
        let n = a.len() - 1;
        assert(has_group(a, a[n].provider));
        assert(has_group(b, a[n].provider));
        let j = choose|j: int| 0 <= j < b.len() && (#[trigger] b[j]).provider == a[n].provider;
        let m = b.len() - 1;
        assert(has_group(b, b[m].provider));
        assert(has_group(a, b[m].provider));
        let i = choose|i: int| 0 <= i < a.len() && (#[trigger] a[i]).provider == b[m].provider;
        lemma_text_lt_total(a[n].provider, b[m].provider);
        if j < m {
            assert(text_lt(b[j].provider, b[m].provider));
        }
        if i < n {
            assert(text_lt(a[i].provider, a[n].provider));
        }
        assert(a[n].provider == b[m].provider);
        let front_a = a.drop_last();
        let front_b = b.drop_last();
        assert forall|p: Seq<char>| #[trigger] has_group(front_a, p) <==> has_group(front_b, p) by {
            lemma_front_group(a, p);
            lemma_front_group(b, p);
            assert(has_group(a, p) <==> has_group(b, p));
        }
        lemma_providers_are_unique(front_a, front_b);
        assert forall|k: int| 0 <= k < a.len() implies (#[trigger] a[k]).provider
            == b[k].provider by {
            if k < n {
                assert(front_a[k] == a[k]);
                assert(front_b[k] == b[k]);
                assert(front_a[k].provider == front_b[k].provider);
            }
        }
    }
}

/// Without the last group, its provider has none, and the others have theirs.
proof fn lemma_front_group(groups: Seq<GroupView>, provider: Seq<char>)
    requires
        groups.len() > 0,
        forall|i: int, j: int|
            0 <= i < j < groups.len() ==> text_lt(
                (#[trigger] groups[i]).provider,
                (#[trigger] groups[j]).provider,
            ),
    ensures
        has_group(groups.drop_last(), provider) <==> has_group(groups, provider)
            && groups.last().provider != provider,
{
    let front = groups.drop_last();
    let n = groups.len() - 1;
    if has_group(front, provider) {
        let i = choose|i: int| 0 <= i < front.len() && (#[trigger] front[i]).provider == provider;
        assert(groups[i] == front[i]);
        assert(text_lt(groups[i].provider, groups[n].provider));
        lemma_text_lt_total(groups[i].provider, groups[n].provider);
    }
    if has_group(groups, provider) && groups.last().provider != provider {
        let i = choose|i: int| 0 <= i < groups.len() && (#[trigger] groups[i]).provider == provider;
        assert(i < n);
        assert(front[i] == groups[i]);
    }
}

/// Which groups there are, what is in them and in what order depends on the models alone.
pub proof fn law_groups_are_unique(a: Seq<GroupView>, b: Seq<GroupView>, models: Seq<Model>)
    requires
        groups_up(a, models),
        groups_up(b, models),
    ensures
        a == b,
{
    assert forall|p: Seq<char>| #[trigger] has_group(a, p) <==> has_group(b, p) by {
        law_group_for_each_provider(a, models, p);
        law_group_for_each_provider(b, models, p);
    }
    lemma_providers_are_unique(a, b);
    assert forall|i: int| 0 <= i < a.len() implies a[i] == b[i] by {
        assert(a[i].provider == b[i].provider);
        let entries = entries_under(models, a[i].provider);
        assert(sorts(a[i].models, entries));
        assert(sorts(b[i].models, entries));
        assert forall|id: Seq<char>| #[trigger] with_id(a[i].models, id) == with_id(
            b[i].models,
            id,
        ) by {
            assert(with_id(a[i].models, id) == with_id(entries, id));
            assert(with_id(b[i].models, id) == with_id(entries, id));
        }
        lemma_order_is_unique(a[i].models, b[i].models);
    }
    assert(a =~= b);
}

/// A model that speaks one of the four APIs is listed: the group of its provider has an entry with
/// its id and its name.
pub proof fn law_supported_models_are_listed(groups: Seq<GroupView>, models: Seq<Model>, k: int)
    requires
        groups_up(groups, models),
        0 <= k < models.len(),
        models[k].api@ == "openai-completions"@ || models[k].api@ == "openai-responses"@
            || models[k].api@ == "openai-codex-responses"@ || models[k].api@
            == "anthropic-messages"@,
    ensures
        exists|i: int|
            0 <= i < groups.len() && (#[trigger] groups[i]).provider == models[k].provider@
                && groups[i].models.contains(EntryView { id: models[k].id@, name: models[k].name@ }),
{
    assert(supported_api(models[k].api@));
    assert(has_group(groups, models[k].provider@));
    let i = choose|i: int|
        0 <= i < groups.len() && (#[trigger] groups[i]).provider == models[k].provider@;
    let entry = EntryView { id: models[k].id@, name: models[k].name@ };
    assert(gives_entry(models[k], groups[i].provider, entry));
    law_groups_hold_supported_models(groups, models, i, entry);
}

/// Nothing else is listed: each entry of a group stands for a model of that provider with that id
/// and name which speaks one of the four APIs.
pub proof fn law_listed_models_are_supported(
    groups: Seq<GroupView>,
    models: Seq<Model>,
    i: int,
    j: int,
)
    requires
        groups_up(groups, models),
        0 <= i < groups.len(),
        0 <= j < groups[i].models.len(),
    ensures
        exists|k: int|
            0 <= k < models.len() && (#[trigger] models[k]).provider@ == groups[i].provider
                && models[k].id@ == groups[i].models[j].id && models[k].name@
                == groups[i].models[j].name && (models[k].api@ == "openai-completions"@
                || models[k].api@ == "openai-responses"@ || models[k].api@
                == "openai-codex-responses"@ || models[k].api@ == "anthropic-messages"@),
{
    let entry = groups[i].models[j];
    assert(groups[i].models.contains(entry));
    law_groups_hold_supported_models(groups, models, i, entry);
    let k = choose|k: int|
        0 <= k < models.len() && #[trigger] gives_entry(models[k], groups[i].provider, entry);
    assert(models[k].provider@ == groups[i].provider);
}

/// One model more is one entry more at the end of what its provider lists, where it speaks one of
/// the four APIs, and changes nothing for any other provider.
pub proof fn law_entries_follow_the_models(models: Seq<Model>, model: Model, provider: Seq<char>)
    ensures
        entries_under(Seq::empty(), provider).len() == 0,
        entries_under(models.push(model), provider) == if model.provider@ == provider && (
        model.api@ == "openai-completions"@ || model.api@ == "openai-responses"@ || model.api@
            == "openai-codex-responses"@ || model.api@ == "anthropic-messages"@) {
            entries_under(models, provider).push(EntryView { id: model.id@, name: model.name@ })
        } else {
            entries_under(models, provider)
        },
{
    assert(models.push(model).drop_last() =~= models);
}

/// How often an entry occurs among those with its id is how often it occurs at all.
proof fn lemma_with_id_count(entries: Seq<EntryView>, entry: EntryView)
    ensures
        with_id(entries, entry.id).to_multiset().count(entry) == entries.to_multiset().count(
            entry,
        ),
    decreases entries.len(),
{
    broadcast use vstd::seq_lib::group_to_multiset_ensures;

    if entries.len() > 0 {
        let front = entries.drop_last();
        lemma_with_id_count(front, entry);
        assert(entries =~= front.push(entries.last()));
    }
}

/// Sorting loses no entry and doubles none, puts the ids in order, and leaves entries with one id
/// in the order in which they came.
pub proof fn law_sorting_keeps_every_entry(sorted: Seq<EntryView>, entries: Seq<EntryView>)
    requires
        sorts(sorted, entries),
    ensures
        sorted.to_multiset() == entries.to_multiset(),
        sorted.len() == entries.len(),
        forall|i: int, j: int|
            0 <= i < j < sorted.len() ==> !text_lt(
                (#[trigger] sorted[j]).id,
                (#[trigger] sorted[i]).id,
            ),
        forall|id: Seq<char>| #[trigger] with_id(sorted, id) == with_id(entries, id),
{
    broadcast use vstd::seq_lib::group_to_multiset_ensures;

    assert forall|entry: EntryView|
        #[trigger] sorted.to_multiset().count(entry) == entries.to_multiset().count(entry) by {
        lemma_with_id_count(sorted, entry);
        lemma_with_id_count(entries, entry);
        assert(with_id(sorted, entry.id) == with_id(entries, entry.id));
    }
    assert(sorted.to_multiset() =~= entries.to_multiset());
    sorted.to_multiset_ensures();
    entries.to_multiset_ensures();
}

/// The entries with an id are picked one by one, in their order.
pub proof fn law_entries_are_picked_by_id(entries: Seq<EntryView>, entry: EntryView, id: Seq<char>)
    ensures
        with_id(Seq::empty(), id).len() == 0,
        entry.id == id ==> with_id(entries.push(entry), id) == with_id(entries, id).push(entry),
        entry.id != id ==> with_id(entries.push(entry), id) == with_id(entries, id),
{
    assert(entries.push(entry).drop_last() =~= entries);
}

/// The groups stand in the strict order of their providers, none is empty, and in each the models
/// stand in the order of their ids, as many as its provider has.
pub proof fn law_groups_are_in_order(groups: Seq<GroupView>, models: Seq<Model>, i: int)
    requires
        groups_up(groups, models),
        0 <= i < groups.len(),
    ensures
        forall|j: int| i < j < groups.len() ==> text_lt(
            groups[i].provider,
            (#[trigger] groups[j]).provider,
        ),
        groups[i].models.len() > 0,
        groups[i].models.len() == entries_under(models, groups[i].provider).len(),
        forall|a: int, b: int|
            0 <= a < b < groups[i].models.len() ==> !text_lt(
                (#[trigger] groups[i].models[b]).id,
                (#[trigger] groups[i].models[a]).id,
            ),
{
    law_sorting_keeps_every_entry(
        groups[i].models,
        entries_under(models, groups[i].provider),
    );
}

/// Where what is asked for credentials always gives the same answer for a name, that is the answer
/// that is kept.
pub proof fn law_credentials_are_as_told<F: Fn(&str) -> bool>(
    has_credential: F,
    known: spec_fn(Seq<char>) -> bool,
    provider: Seq<char>,
    answer: bool,
)
    requires
        forall|name: &str, told: bool| #[trigger]
            has_credential.ensures((name,), told) ==> told == known(name@),
        says(has_credential, provider, answer),
    ensures
        answer == known(provider),
{
}

/// The value of a list shows each provider with its models, each with its id and its name.
pub proof fn law_groups_show_what_they_hold(groups: Seq<ProviderGroup>, i: int, j: int)
    requires
        0 <= i < groups.len(),
        0 <= j < groups[i].models@.len(),
    ensures
        group_views(groups).len() == groups.len(),
        group_views(groups)[i].provider == groups[i].provider@,
        group_views(groups)[i].models.len() == groups[i].models@.len(),
        group_views(groups)[i].models[j].id == groups[i].models@[j].id@,
        group_views(groups)[i].models[j].name == groups[i].models@[j].name@,
{
}

} // verus!
