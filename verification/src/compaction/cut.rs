//! Where to cut a session in two: what lies before the cut is summarized, what lies behind it is
//! kept as it is. A cut never parts a turn, which begins with what the user says.

use crate::compaction::estimate::{
    assistant_usage, checked_message_chars, counted_usage, estimate_tokens,
    law_answer_carries_its_count, law_other_messages_carry_no_count, message_fits, message_tokens,
};
use crate::compaction::CompactionSettings;
use crate::message::{
    optional_text, AgentMessage, AssistantView, Message, MessageView, Usage,
};
use crate::session::{entry_views, EntryBody, EntryView, SessionTreeEntry};
use vstd::prelude::*;

verus! {

// ---------------------------------------------------------------------------------------------
// What entries count
// ---------------------------------------------------------------------------------------------

/// The tokens that an entry is taken for: only messages count.
pub open spec fn entry_tokens(entry: EntryView) -> nat {
    match entry.body {
        EntryBody::Message(message) => message_tokens(message),
        _ => 0,
    }
}

/// The machine can count what the entry counts as.
pub open spec fn entry_fits(entry: EntryView) -> bool {
    match entry.body {
        EntryBody::Message(message) => message_fits(message),
        _ => true,
    }
}

/// The machine can count each of the entries.
pub open spec fn entries_fit(entries: Seq<EntryView>) -> bool {
    forall|i: int| 0 <= i < entries.len() ==> entry_fits(#[trigger] entries[i])
}

/// The tokens that entries are taken for together.
pub open spec fn entries_tokens(entries: Seq<EntryView>) -> nat
    decreases entries.len(),
{
    if entries.len() == 0 {
        0
    } else {
        entries_tokens(entries.drop_last()) + entry_tokens(entries.last())
    }
}

/// The count of two runs of entries is the sum of the two counts.
pub proof fn lemma_entries_tokens_concat(a: Seq<EntryView>, b: Seq<EntryView>)
    ensures
        entries_tokens(a + b) == entries_tokens(a) + entries_tokens(b),
    decreases b.len(),
{
    if b.len() == 0 {
        assert(a + b =~= a);
    } else {
        assert((a + b).drop_last() =~= a + b.drop_last());
        lemma_entries_tokens_concat(a, b.drop_last());
    }
}

/// One entry more at the front counts one entry more.
proof fn lemma_entries_tokens_front(entries: Seq<EntryView>, i: int)
    requires
        0 <= i < entries.len(),
    ensures
        entries_tokens(entries.skip(i)) == entry_tokens(entries[i]) + entries_tokens(
            entries.skip(i + 1),
        ),
{
    let first = seq![entries[i]];
    assert(entries.skip(i) =~= first + entries.skip(i + 1));
    lemma_entries_tokens_concat(first, entries.skip(i + 1));
    assert(first.drop_last() =~= Seq::<EntryView>::empty());
    assert(entries_tokens(first) == entries_tokens(first.drop_last()) + entry_tokens(
        first.last(),
    ));
}

/// The tokens of an entry.
fn tokens_of(entry: &SessionTreeEntry) -> (r: u64)
    requires
        entry_fits(entry@),
    ensures
        r == entry_tokens(entry@),
        r <= 0x4000_0000_0000_0000,
{
    match entry {
        SessionTreeEntry::Message { message, .. } => estimate_tokens(message),
        _ => 0,
    }
}

/// The last count that a message of the session carries.
pub open spec fn last_entry_usage(entries: Seq<EntryView>) -> Option<Usage>
    decreases entries.len(),
{
    if entries.len() == 0 {
        None
    } else {
        match entry_usage(entries.last()) {
            Some(usage) => Some(usage),
            None => last_entry_usage(entries.drop_last()),
        }
    }
}

/// The count that an entry carries.
pub open spec fn entry_usage(entry: EntryView) -> Option<Usage> {
    match entry.body {
        EntryBody::Message(message) => counted_usage(message),
        _ => None,
    }
}

/// The last count that a message of the session carries.
pub fn get_last_assistant_usage(entries: &[SessionTreeEntry]) -> (r: Option<Usage>)
    ensures
        r == last_entry_usage(entry_views(entries@)),
{
    let ghost shown = entry_views(entries@);
    let mut i: usize = entries.len();
    assert(shown.take(i as int) =~= shown);
    while i > 0
        invariant
            i <= entries@.len(),
            shown == entry_views(entries@),
            last_entry_usage(shown) == last_entry_usage(shown.take(i as int)),
        decreases i,
    {
        i -= 1;
        assert(shown.take(i + 1).drop_last() =~= shown.take(i as int));
        if let SessionTreeEntry::Message { message, .. } = &entries[i] {
            if let Some(usage) = assistant_usage(message) {
                return Some(usage);
            }
        }
    }
    None
}

// ---------------------------------------------------------------------------------------------
// Turns
// ---------------------------------------------------------------------------------------------

/// The entry is what a user says.
pub open spec fn begins_turn(entry: EntryView) -> bool {
    match entry.body {
        EntryBody::Message(message) => message is User,
        _ => false,
    }
}

/// The last entry of `entries[start..=upper]` that begins a turn; `start` where none does.
pub open spec fn turn_start(entries: Seq<EntryView>, upper: int, start: int) -> int
    decreases upper - start + 1,
{
    if upper < start {
        start
    } else if begins_turn(entries[upper]) {
        upper
    } else {
        turn_start(entries, upper - 1, start)
    }
}

/// What [`turn_start`] finds begins a turn, or is `start`; behind it no turn begins up to
/// `upper`.
pub proof fn lemma_turn_start(entries: Seq<EntryView>, upper: int, start: int)
    ensures
        ({
            let found = turn_start(entries, upper, start);
            &&& found == start || (start <= found <= upper && begins_turn(entries[found]))
            &&& forall|i: int| found < i <= upper ==> !begins_turn(#[trigger] entries[i])
        }),
    decreases upper - start + 1,
{
    if start <= upper && !begins_turn(entries[upper]) {
        lemma_turn_start(entries, upper - 1, start);
    }
}

fn is_turn_start(entry: &SessionTreeEntry) -> (r: bool)
    ensures
        r == begins_turn(entry@),
        r == (entry@.body is Message && entry@.body->Message_0 is User),
        match entry {
            SessionTreeEntry::Message { message: AgentMessage::Llm(Message::User(_)), .. } => r,
            _ => !r,
        },
{
    match entry {
        SessionTreeEntry::Message { message: AgentMessage::Llm(Message::User(_)), .. } => true,
        _ => false,
    }
}

/// Walks back from `entry_index` to the entry that begins the turn; `start_index` where no turn
/// begins between the two. An index behind the last entry counts as the last entry.
pub fn find_turn_start_index(
    entries: &[SessionTreeEntry],
    entry_index: usize,
    start_index: usize,
) -> (r: usize)
    ensures
        r == turn_start(
            entry_views(entries@),
            if entry_index < entries@.len() {
                entry_index as int
            } else {
                entries@.len() - 1
            },
            start_index as int,
        ),
        r != start_index ==> r < entries@.len() && (entries@[r as int] matches
            SessionTreeEntry::Message { message: AgentMessage::Llm(Message::User(_)), .. }),
{
    if entries.len() == 0 {
        return start_index;
    }
    let ghost shown = entry_views(entries@);
    let upper = if entry_index < entries.len() {
        entry_index
    } else {
        entries.len() - 1
    };
    if upper < start_index {
        return start_index;
    }
    let mut i: usize = upper;
    loop
        invariant
            start_index <= i <= upper < entries@.len(),
            upper == if entry_index < entries@.len() {
                entry_index as int
            } else {
                entries@.len() - 1
            },
            shown == entry_views(entries@),
            turn_start(shown, upper as int, start_index as int) == turn_start(
                shown,
                i as int,
                start_index as int,
            ),
        decreases i,
    {
        if is_turn_start(&entries[i]) {
            return i;
        }
        if i == start_index {
            assert(turn_start(shown, i - 1, start_index as int) == start_index);
            return start_index;
        }
        i -= 1;
    }
}

// ---------------------------------------------------------------------------------------------
// The cut
// ---------------------------------------------------------------------------------------------

/// Where a session is cut.
#[derive(Debug)]
pub struct CutPointResult {
    /// `entries[..cut_index]` are summarized and `entries[cut_index..]` are kept.
    pub cut_index: usize,
    /// The id of the first entry that is kept.
    pub first_kept_entry_id: Option<String>,
}

impl Clone for CutPointResult {
    fn clone(&self) -> (r: CutPointResult)
        ensures
            r == *self,
    {
        CutPointResult {
            cut_index: self.cut_index,
            first_kept_entry_id: match &self.first_kept_entry_id {
                Some(id) => Some(id.clone()),
                None => None,
            },
        }
    }
}

/// The last entry below `below` from which on at least `keep` tokens are kept; behind the last
/// entry where there is none.
pub open spec fn keeping_from(entries: Seq<EntryView>, keep: nat, below: int) -> int
    decreases below,
{
    if below <= 0 {
        entries.len() as int
    } else if entries_tokens(entries.skip(below - 1)) >= keep {
        below - 1
    } else {
        keeping_from(entries, keep, below - 1)
    }
}

/// Where a session is cut so that at least `keep` tokens are kept: at the beginning of the turn from
/// which on enough is kept, or at the front where the whole session has less.
pub open spec fn cut_of(entries: Seq<EntryView>, keep: nat) -> int {
    let target = keeping_from(entries, keep, entries.len() as int);
    if target < entries.len() {
        turn_start(entries, target, 0)
    } else {
        0
    }
}

/// The id of the entry at `cut`.
pub open spec fn id_at(entries: Seq<EntryView>, cut: int) -> Option<Seq<char>> {
    if 0 <= cut < entries.len() {
        Some(entries[cut].id)
    } else {
        None
    }
}

/// `r` is where the session is cut.
pub open spec fn cuts(r: CutPointResult, entries: Seq<EntryView>, keep: nat) -> bool {
    &&& r.cut_index == cut_of(entries, keep)
    &&& optional_text(r.first_kept_entry_id) == id_at(entries, r.cut_index as int)
}

/// Finds where to cut: walks back until enough is kept, then on to the beginning of that turn. A
/// session that has less than is to be kept is kept whole.
pub fn find_cut_point(entries: &[SessionTreeEntry], settings: &CompactionSettings) -> (r:
    CutPointResult)
    requires
        entries_fit(entry_views(entries@)),
    ensures
        r.cut_index == cut_of(entry_views(entries@), settings.keep_recent_tokens as nat),
        r.cut_index <= entries@.len(),
        optional_text(r.first_kept_entry_id) == id_at(
            entry_views(entries@),
            r.cut_index as int,
        ),
        cuts(r, entry_views(entries@), settings.keep_recent_tokens as nat),
        r.cut_index > 0 ==> r.cut_index < entries@.len() && (entries@[r.cut_index as int] matches
            SessionTreeEntry::Message { message: AgentMessage::Llm(Message::User(_)), .. }),
{
    if entries.len() == 0 {
        return CutPointResult { cut_index: 0, first_kept_entry_id: None };
    }
    let ghost shown = entry_views(entries@);
    let keep = settings.keep_recent_tokens as u64;
    let total = entries.len();
    let mut kept: u64 = 0;
    let mut target: usize = total;
    let mut i: usize = total;
    assert(shown.skip(total as int) =~= Seq::<EntryView>::empty());
    while i > 0
        invariant_except_break
            target == total,
            kept == entries_tokens(shown.skip(i as int)),
            kept < keep || i == total,
            keeping_from(shown, keep as nat, total as int) == keeping_from(
                shown,
                keep as nat,
                i as int,
            ),
        invariant
            i <= total,
            total == entries@.len(),
            shown == entry_views(entries@),
            entries_fit(shown),
            keep <= u32::MAX,
        ensures
            target == keeping_from(shown, keep as nat, total as int),
            target <= total,
        decreases i,
    {
        i -= 1;
        proof {
            lemma_entries_tokens_front(shown, i as int);
            if i + 1 == total {
                assert(shown.skip(total as int) =~= Seq::<EntryView>::empty());
            }
        }
        kept = kept + tokens_of(&entries[i]);
        if kept >= keep {
            target = i;
            break;
        }
    }
    let cut = if target < total {
        proof {
            lemma_turn_start(shown, target as int, 0);
        }
        find_turn_start_index(entries, target, 0)
    } else {
        0
    };
    CutPointResult { cut_index: cut, first_kept_entry_id: Some(entries[cut].id().to_string()) }
}

/// What compaction works on.
#[derive(Debug)]
pub struct CompactionPreparation {
    pub cut: CutPointResult,
    /// The entries that the summary will stand for.
    pub entries_to_summarize: Vec<SessionTreeEntry>,
    /// The tokens that they are taken for.
    pub tokens_before: u64,
}

impl Clone for CompactionPreparation {
    fn clone(&self) -> (r: CompactionPreparation)
        ensures
            r.cut == self.cut,
            entry_views(r.entries_to_summarize@) == entry_views(self.entries_to_summarize@),
            r.tokens_before == self.tokens_before,
    {
        let entries_to_summarize = self.entries_to_summarize.clone();
        assert(entry_views(entries_to_summarize@) =~= entry_views(self.entries_to_summarize@));
        CompactionPreparation {
            cut: self.cut.clone(),
            entries_to_summarize,
            tokens_before: self.tokens_before,
        }
    }
}

/// The machine can count what compaction needs: each entry, and the sum of those that it
/// summarizes.
pub open spec fn preparation_fits(entries: Seq<EntryView>, keep: nat) -> bool {
    entries_fit(entries) && entries_tokens(entries.take(cut_of(entries, keep))) <= u64::MAX
}

/// `preparation` cuts the session where at least `keep` tokens are kept, and holds what lies before
/// the cut and the tokens of that.
pub open spec fn prepares(
    preparation: CompactionPreparation,
    entries: Seq<EntryView>,
    keep: nat,
) -> bool {
    let cut = cut_of(entries, keep);
    &&& preparation.cut.cut_index == cut
    &&& cut <= entries.len()
    &&& optional_text(preparation.cut.first_kept_entry_id) == id_at(entries, cut)
    &&& entry_views(preparation.entries_to_summarize@) == entries.take(cut)
    &&& preparation.tokens_before == entries_tokens(entries.take(cut))
}

/// Leaving entries out makes the count no larger.
proof fn lemma_entries_tokens_prefix(entries: Seq<EntryView>, i: int)
    requires
        0 <= i <= entries.len(),
    ensures
        entries_tokens(entries.take(i)) <= entries_tokens(entries),
{
    assert(entries =~= entries.take(i) + entries.skip(i));
    lemma_entries_tokens_concat(entries.take(i), entries.skip(i));
}

/// Cuts a session in two and gathers what is to be summarized.
pub fn prepare_compaction(entries: &[SessionTreeEntry], settings: &CompactionSettings) -> (r:
    CompactionPreparation)
    requires
        preparation_fits(entry_views(entries@), settings.keep_recent_tokens as nat),
    ensures
        prepares(r, entry_views(entries@), settings.keep_recent_tokens as nat),
{
    let ghost shown = entry_views(entries@);
    let cut = find_cut_point(entries, settings);
    let ghost folded = shown.take(cut.cut_index as int);
    let mut entries_to_summarize: Vec<SessionTreeEntry> = Vec::new();
    let mut tokens_before: u64 = 0;
    let mut i: usize = 0;
    while i < cut.cut_index
        invariant
            i <= cut.cut_index <= entries@.len(),
            shown == entry_views(entries@),
            folded == shown.take(cut.cut_index as int),
            entries_fit(shown),
            entries_tokens(folded) <= u64::MAX,
            entry_views(entries_to_summarize@) == folded.take(i as int),
            tokens_before == entries_tokens(folded.take(i as int)),
        decreases cut.cut_index - i,
    {
        proof {
            assert(folded[i as int] == entries@[i as int]@);
            assert(folded.take(i + 1).drop_last() =~= folded.take(i as int));
            lemma_entries_tokens_prefix(folded, i + 1);
        }
        let ghost before = entries_to_summarize@;
        let copy = entries[i].clone();
        entries_to_summarize.push(copy);
        tokens_before = tokens_before + tokens_of(&entries[i]);
        i += 1;
        assert(entry_views(entries_to_summarize@) =~= entry_views(before).push(copy@));
        assert(entry_views(entries_to_summarize@) =~= folded.take(i as int));
    }
    assert(folded.take(i as int) =~= folded);
    CompactionPreparation { cut, entries_to_summarize, tokens_before }
}

/// Whether the machine can count each entry.
fn all_fit(entries: &[SessionTreeEntry]) -> (r: bool)
    ensures
        r == entries_fit(entry_views(entries@)),
{
    let ghost shown = entry_views(entries@);
    let mut i: usize = 0;
    while i < entries.len()
        invariant
            i <= entries@.len(),
            shown == entry_views(entries@),
            forall|k: int| 0 <= k < i ==> entry_fits(#[trigger] shown[k]),
        decreases entries@.len() - i,
    {
        assert(shown[i as int] == entries@[i as int]@);
        if let SessionTreeEntry::Message { message, .. } = &entries[i] {
            if checked_message_chars(message).is_none() {
                return false;
            }
        }
        i += 1;
    }
    true
}

/// Finds where to cut, where the machine can count each entry.
pub fn try_find_cut_point(entries: &[SessionTreeEntry], settings: &CompactionSettings) -> (r:
    Option<CutPointResult>)
    ensures
        r is Some <==> entries_fit(entry_views(entries@)),
        r matches Some(cut) ==> cut.cut_index == cut_of(
            entry_views(entries@),
            settings.keep_recent_tokens as nat,
        ) && cut.cut_index <= entries@.len() && optional_text(cut.first_kept_entry_id) == id_at(
            entry_views(entries@),
            cut.cut_index as int,
        ) && cuts(cut, entry_views(entries@), settings.keep_recent_tokens as nat),
{
    if all_fit(entries) {
        Some(find_cut_point(entries, settings))
    } else {
        None
    }
}

/// Cuts a session in two and gathers what is to be summarized, where the machine can count what
/// that needs.
pub fn try_prepare_compaction(entries: &[SessionTreeEntry], settings: &CompactionSettings) -> (r:
    Option<CompactionPreparation>)
    ensures
        r is Some <==> preparation_fits(
            entry_views(entries@),
            settings.keep_recent_tokens as nat,
        ),
        r matches Some(preparation) ==> prepares(
            preparation,
            entry_views(entries@),
            settings.keep_recent_tokens as nat,
        ),
{
    let ghost shown = entry_views(entries@);
    let cut = match try_find_cut_point(entries, settings) {
        Some(cut) => cut,
        None => {
            return None;
        },
    };
    let ghost folded = shown.take(cut.cut_index as int);
    let mut total: u64 = 0;
    let mut i: usize = 0;
    while i < cut.cut_index
        invariant
            i <= cut.cut_index <= entries@.len(),
            shown == entry_views(entries@),
            folded == shown.take(cut.cut_index as int),
            cut.cut_index == cut_of(shown, settings.keep_recent_tokens as nat),
            entries_fit(shown),
            total == entries_tokens(folded.take(i as int)),
        decreases cut.cut_index - i,
    {
        proof {
            assert(folded[i as int] == entries@[i as int]@);
            assert(folded.take(i + 1).drop_last() =~= folded.take(i as int));
            lemma_entries_tokens_prefix(folded, i + 1);
        }
        match total.checked_add(tokens_of(&entries[i])) {
            Some(sum) => {
                total = sum;
            },
            None => {
                return None;
            },
        }
        i += 1;
    }
    assert(folded.take(i as int) =~= folded);
    Some(prepare_compaction(entries, settings))
}

// ---------------------------------------------------------------------------------------------
// Laws
// ---------------------------------------------------------------------------------------------

/// From the entry that [`keeping_from`] finds on, enough is kept, and from no later entry on is;
/// where it finds none, the session has less than that.
proof fn lemma_keeping_from(entries: Seq<EntryView>, keep: nat, below: int)
    requires
        0 <= below <= entries.len(),
        forall|i: int|
            below <= i < entries.len() ==> entries_tokens(#[trigger] entries.skip(i)) < keep,
    ensures
        ({
            let found = keeping_from(entries, keep, below);
            &&& 0 <= found <= entries.len()
            &&& found < entries.len() ==> entries_tokens(entries.skip(found)) >= keep
            &&& found == entries.len() && entries.len() > 0 ==> entries_tokens(entries) < keep
            &&& forall|i: int|
                found < i < entries.len() ==> entries_tokens(#[trigger] entries.skip(i)) < keep
        }),
    decreases below,
{
    if below > 0 {
        if entries_tokens(entries.skip(below - 1)) < keep {
            lemma_keeping_from(entries, keep, below - 1);
        }
    } else if entries.len() > 0 {
        assert(entries.skip(0) =~= entries);
        assert(entries_tokens(entries.skip(0)) < keep);
    }
}

/// A cut lies in the session, and at its front or where a turn begins.
pub proof fn law_cut_parts_no_turn(entries: Seq<EntryView>, keep: nat)
    ensures
        ({
            let cut = cut_of(entries, keep);
            &&& 0 <= cut <= entries.len()
            &&& cut == 0 || (cut < entries.len() && begins_turn(entries[cut]))
        }),
{
    lemma_keeping_from(entries, keep, entries.len() as int);
    let target = keeping_from(entries, keep, entries.len() as int);
    lemma_turn_start(entries, target, 0);
}

/// At least as many tokens are kept as are to be kept, or the whole session is.
pub proof fn law_cut_keeps_enough(entries: Seq<EntryView>, keep: nat)
    ensures
        ({
            let cut = cut_of(entries, keep);
            &&& cut == 0 || entries_tokens(entries.skip(cut)) >= keep
            &&& entries_tokens(entries) < keep ==> cut == 0
        }),
{
    law_cut_parts_no_turn(entries, keep);
    lemma_keeping_from(entries, keep, entries.len() as int);
    let target = keeping_from(entries, keep, entries.len() as int);
    let cut = cut_of(entries, keep);
    if target < entries.len() {
        lemma_turn_start(entries, target, 0);
        assert(entries.skip(cut) =~= entries.subrange(cut, target) + entries.skip(target));
        lemma_entries_tokens_concat(entries.subrange(cut, target), entries.skip(target));
        assert(entries =~= entries.take(target) + entries.skip(target));
        lemma_entries_tokens_concat(entries.take(target), entries.skip(target));
    }
}

/// What is summarized and what is kept are the whole session, and so are their tokens.
pub proof fn law_cut_loses_nothing(entries: Seq<EntryView>, keep: nat)
    ensures
        ({
            let cut = cut_of(entries, keep);
            &&& entries.take(cut) + entries.skip(cut) == entries
            &&& entries_tokens(entries.take(cut)) + entries_tokens(entries.skip(cut))
                == entries_tokens(entries)
        }),
{
    law_cut_parts_no_turn(entries, keep);
    let cut = cut_of(entries, keep);
    assert(entries.take(cut) + entries.skip(cut) =~= entries);
    lemma_entries_tokens_concat(entries.take(cut), entries.skip(cut));
}

/// A turn begins with a message of the user and with nothing else: no answer, no result of a tool,
/// no message of the program's own, no summary, no move and no mark begins one.
pub proof fn law_only_the_user_begins_a_turn(entry: EntryView)
    ensures
        begins_turn(entry) <==> match entry.body {
            EntryBody::Message(MessageView::User { .. }) => true,
            EntryBody::Message(MessageView::Assistant(_)) => false,
            EntryBody::Message(MessageView::ToolResult { .. }) => false,
            EntryBody::Message(MessageView::Custom { .. }) => false,
            EntryBody::Compaction { .. } => false,
            EntryBody::Leaf { .. } => false,
            EntryBody::Custom { .. } => false,
        },
{
}

/// The search for the start of a turn stays between `start` and `upper`. It ends at a message of
/// the user, or at `start` where the user says nothing between the two, and the user says nothing
/// behind it up to `upper`.
pub proof fn law_turn_starts_with_the_user(entries: Seq<EntryView>, upper: int, start: int)
    requires
        start <= upper,
    ensures
        ({
            let found = turn_start(entries, upper, start);
            &&& start <= found <= upper
            &&& found > start ==> entries[found].body is Message
                && entries[found].body->Message_0 is User
            &&& forall|i: int|
                found < i <= upper && (#[trigger] entries[i]).body is Message
                    ==> !(entries[i].body->Message_0 is User)
        }),
{
    lemma_turn_start(entries, upper, start);
    let found = turn_start(entries, upper, start);
    law_only_the_user_begins_a_turn(entries[found]);
    assert forall|i: int|
        found < i <= upper && (#[trigger] entries[i]).body is Message implies !(
    entries[i].body->Message_0 is User) by {
        law_only_the_user_begins_a_turn(entries[i]);
    }
}

/// A session is cut at its front, or at an entry that is a message of the user.
pub proof fn law_cut_is_at_a_message_of_the_user(entries: Seq<EntryView>, keep: nat)
    ensures
        ({
            let cut = cut_of(entries, keep);
            cut > 0 ==> cut < entries.len() && entries[cut].body is Message
                && entries[cut].body->Message_0 is User
        }),
{
    law_cut_parts_no_turn(entries, keep);
    law_only_the_user_begins_a_turn(entries[cut_of(entries, keep)]);
}

/// No more is kept than has to be: from any message of the user behind the cut on, less than
/// `keep` tokens would be kept.
pub proof fn law_cut_is_the_latest(entries: Seq<EntryView>, keep: nat, i: int)
    requires
        cut_of(entries, keep) < i < entries.len(),
        entries[i].body is Message,
        entries[i].body->Message_0 is User,
    ensures
        entries_tokens(entries.skip(i)) < keep,
{
    lemma_keeping_from(entries, keep, entries.len() as int);
    let target = keeping_from(entries, keep, entries.len() as int);
    law_cut_parts_no_turn(entries, keep);
    if target < entries.len() {
        law_turn_starts_with_the_user(entries, target, 0);
    } else {
        assert(entries =~= entries.take(i) + entries.skip(i));
        lemma_entries_tokens_concat(entries.take(i), entries.skip(i));
    }
}

/// An entry that is a message counts what the message counts; a summary, a move and a mark count
/// nothing.
pub proof fn law_only_messages_count(entry: EntryView)
    ensures
        entries_tokens(Seq::empty()) == 0,
        entries_tokens(seq![entry]) == match entry.body {
            EntryBody::Message(message) => message_tokens(message),
            EntryBody::Compaction { .. } => 0,
            EntryBody::Leaf { .. } => 0,
            EntryBody::Custom { .. } => 0,
        },
{
    reveal_with_fuel(entries_tokens, 2);
    assert(seq![entry].drop_last() =~= Seq::<EntryView>::empty());
}

/// What is prepared is the session up to the cut with its tokens; the entry behind it is the first
/// that is kept, and a session without entries keeps none.
pub proof fn law_preparation_parts_the_session(
    preparation: CompactionPreparation,
    entries: Seq<EntryView>,
    keep: nat,
)
    requires
        prepares(preparation, entries, keep),
    ensures
        ({
            let folded = entry_views(preparation.entries_to_summarize@);
            let cut = preparation.cut.cut_index as int;
            &&& folded.len() == cut <= entries.len()
            &&& folded + entries.skip(cut) == entries
            &&& preparation.tokens_before == entries_tokens(folded)
            &&& cut > 0 ==> entries[cut].body is Message && entries[cut].body->Message_0 is User
            &&& cut > 0 ==> entries_tokens(entries.skip(cut)) >= keep
            &&& match preparation.cut.first_kept_entry_id {
                Some(id) => cut < entries.len() && id@ == entries[cut].id,
                None => entries.len() == 0,
            }
        }),
{
    law_cut_is_at_a_message_of_the_user(entries, keep);
    law_cut_keeps_enough(entries, keep);
    law_cut_loses_nothing(entries, keep);
    law_cut_parts_no_turn(entries, keep);
}

/// The last count of a session is that of the last answer that ran to its end, was cut at its
/// length or calls a tool, and of which one of the counters is not zero.
pub proof fn law_last_answer_of_the_session_counts(
    entries: Seq<EntryView>,
    i: int,
    answer: AssistantView,
)
    requires
        0 <= i < entries.len(),
        entries[i].body == EntryBody::Message(MessageView::Assistant(answer)),
        answer.stop_reason is Stop || answer.stop_reason is Length || answer.stop_reason
            is ToolUse,
        answer.usage.input > 0 || answer.usage.output > 0 || answer.usage.cache_read > 0
            || answer.usage.cache_write > 0 || answer.usage.total_tokens > 0,
        forall|k: int|
            i < k < entries.len() ==> match (#[trigger] entries[k]).body {
                EntryBody::Message(MessageView::Assistant(a)) => a.stop_reason is Aborted
                    || a.stop_reason is Error || (a.usage.input == 0 && a.usage.output == 0
                    && a.usage.cache_read == 0 && a.usage.cache_write == 0
                    && a.usage.total_tokens == 0),
                _ => true,
            },
    ensures
        last_entry_usage(entries) == Some(answer.usage),
    decreases entries.len(),
{
    if i < entries.len() - 1 {
        assert(entry_usage(entries.last()) is None) by {
            assert(entries.last() == entries[entries.len() - 1]);
            if let EntryBody::Message(message) = entries.last().body {
                law_other_messages_carry_no_count(message);
            }
        }
        law_last_answer_of_the_session_counts(entries.drop_last(), i, answer);
    } else {
        law_answer_carries_its_count(answer);
    }
}

/// A session in which no answer has a count has none.
pub proof fn law_without_answer_nothing_was_counted(entries: Seq<EntryView>)
    requires
        forall|k: int|
            0 <= k < entries.len() ==> match (#[trigger] entries[k]).body {
                EntryBody::Message(MessageView::Assistant(a)) => a.stop_reason is Aborted
                    || a.stop_reason is Error || (a.usage.input == 0 && a.usage.output == 0
                    && a.usage.cache_read == 0 && a.usage.cache_write == 0
                    && a.usage.total_tokens == 0),
                _ => true,
            },
    ensures
        last_entry_usage(entries) is None,
    decreases entries.len(),
{
    if entries.len() > 0 {
        assert(entry_usage(entries.last()) is None) by {
            assert(entries.last() == entries[entries.len() - 1]);
            if let EntryBody::Message(message) = entries.last().body {
                law_other_messages_carry_no_count(message);
            }
        }
        law_without_answer_nothing_was_counted(entries.drop_last());
    }
}

/// A session can be cut where each message in it can be counted, and prepared where the tokens up
/// to the cut are no more than 64 bits hold.
pub proof fn law_which_sessions_can_be_cut(entries: Seq<EntryView>, keep: nat)
    ensures
        entries_fit(entries) <==> forall|i: int|
            0 <= i < entries.len() && (#[trigger] entries[i]).body is Message ==> message_fits(
                entries[i].body->Message_0,
            ),
        preparation_fits(entries, keep) <==> entries_fit(entries) && entries_tokens(
            entries.subrange(0, cut_of(entries, keep)),
        ) <= 0xffff_ffff_ffff_ffff,
{
    law_cut_parts_no_turn(entries, keep);
    let cut = cut_of(entries, keep);
    assert(entries.take(cut) =~= entries.subrange(0, cut));
    if forall|i: int|
        0 <= i < entries.len() && (#[trigger] entries[i]).body is Message ==> message_fits(
            entries[i].body->Message_0,
        ) {
        assert forall|i: int| 0 <= i < entries.len() implies entry_fits(#[trigger] entries[i]) by {
            assert(entries[i].body is Message ==> message_fits(entries[i].body->Message_0));
        }
    }
    if entries_fit(entries) {
        assert forall|i: int|
            0 <= i < entries.len() && (#[trigger] entries[i]).body is Message implies message_fits(
            entries[i].body->Message_0,
        ) by {
            assert(entry_fits(entries[i]));
        }
    }
}

/// Where a session is cut, the first entry that is kept is a message of the user, unless nothing is
/// cut off; from it on enough is kept; and its id is the one that is given.
pub proof fn law_cut_point_is_a_message_of_the_user(
    r: CutPointResult,
    entries: Seq<EntryView>,
    keep: nat,
)
    requires
        cuts(r, entries, keep),
    ensures
        r.cut_index <= entries.len(),
        r.cut_index > 0 ==> entries[r.cut_index as int].body is Message
            && entries[r.cut_index as int].body->Message_0 is User,
        r.cut_index > 0 ==> entries_tokens(entries.skip(r.cut_index as int)) >= keep,
        entries.len() > 0 ==> r.cut_index < entries.len() && r.first_kept_entry_id is Some
            && r.first_kept_entry_id->0@ == entries[r.cut_index as int].id,
        entries.len() == 0 ==> r.first_kept_entry_id is None,
{
    law_cut_is_at_a_message_of_the_user(entries, keep);
    law_cut_keeps_enough(entries, keep);
    law_cut_parts_no_turn(entries, keep);
}

} // verus!
