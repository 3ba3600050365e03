//! Normalization of heterogeneous source records into uniform entries.
//!
//! Each log source returns records of its own shape. An adapter turns every
//! record into an [`Entry`]: a sort key — the record's own timestamp, or the
//! window's start when the record carries none — and a rendered text block.
//! A record whose rendering fails keeps its slot in the timeline under a
//! fallback text instead of being dropped.

use vstd::prelude::*;
use crate::order::{entry_leq, str_leq, EntryView};

verus! {

/// A normalized, orderable, renderable unit derived from one raw record.
pub struct Entry {
    /// A timestamp serialized in a lexicographically sortable form.
    pub sort_key: String,
    /// The final formatted text block for display.
    pub rendered_text: String,
}

impl View for Entry {
    type V = EntryView;

    open spec fn view(&self) -> EntryView {
        (self.sort_key@, self.rendered_text@)
    }
}

/// One raw record, in the native shape of the source that produced it.
/// The aggregator never looks inside; only the source's adapter arm does.
#[allow(inconsistent_fields)]
pub enum RawRecord {
    /// A free-form operator narrative. Always timestamped.
    Narrative { date_added: String, message_text: Option<String> },
    /// A note attached to an exposure. Its timestamp is optional.
    Exposure { date_added: Option<String>, message_text: Option<String> },
    /// An observing-block event. Always timestamped and tagged with its block.
    Block { date_added: String, block_id: String, message: Option<String> },
}

/// What the source-specific rendering routine yields for a record: the
/// formatted text, or nothing when the record cannot be rendered.
pub open spec fn spec_try_render(r: RawRecord) -> Option<Seq<char>> {
    match r {
        RawRecord::Narrative { message_text: Some(m), .. } => Some(m@),
        RawRecord::Narrative { message_text: None, .. } => None,
        RawRecord::Exposure { message_text: Some(m), .. } => Some(m@),
        RawRecord::Exposure { message_text: None, .. } => None,
        RawRecord::Block { block_id, message: Some(m), .. } => Some(
            "["@ + block_id@ + "] "@ + m@,
        ),
        RawRecord::Block { message: None, .. } => None,
    }
}

/// The displayed text of a record: what rendering yields, or the one
/// fallback line — the same for every source — when rendering fails.
pub open spec fn spec_render(r: RawRecord) -> Seq<char> {
    match spec_try_render(r) {
        Some(t) => t,
        None => "Failed to render message."@,
    }
}

/// The sort key of a record: its own timestamp where it has one, otherwise
/// the given fallback — the window's start instant.
pub open spec fn spec_sort_key(r: RawRecord, fallback: Seq<char>) -> Seq<char> {
    match r {
        RawRecord::Narrative { date_added, .. } => date_added@,
        RawRecord::Exposure { date_added: Some(d), .. } => d@,
        RawRecord::Exposure { date_added: None, .. } => fallback,
        RawRecord::Block { date_added, .. } => date_added@,
    }
}

/// The entry a record normalizes to.
pub open spec fn spec_entry(r: RawRecord, fallback: Seq<char>) -> EntryView {
    (spec_sort_key(r, fallback), spec_render(r))
}

/// The source-specific rendering routine. Fails — yields nothing — exactly
/// when the record carries no message text.
pub fn try_render(r: &RawRecord) -> (t: Option<String>)
    ensures
        match t {
            Some(s) => spec_try_render(*r) == Some(s@),
            None => spec_try_render(*r) is None,
        },
{
    match r {
        RawRecord::Narrative { message_text: Some(m), .. } => Some(m.clone()),
        RawRecord::Narrative { message_text: None, .. } => None,
        RawRecord::Exposure { message_text: Some(m), .. } => Some(m.clone()),
        RawRecord::Exposure { message_text: None, .. } => None,
        RawRecord::Block { block_id, message: Some(m), .. } => {
            let mut out = String::new();
            out.append("[");
            out.append(block_id.as_str());
            out.append("] ");
            out.append(m.as_str());
            proof {
                assert(out@ =~= "["@ + block_id@ + "] "@ + m@);
            }
            Some(out)
        },
        RawRecord::Block { message: None, .. } => None,
    }
}

/// Renders a record, substituting the fallback line when the rendering
/// routine fails.
pub fn render_record(r: &RawRecord) -> (t: String)
    ensures
        t@ == spec_render(*r),
{
    match try_render(r) {
        Some(s) => s,
        None => String::from_str("Failed to render message."),
    }
}

/// Compares two entries in the `entry_leq` order: by sort key, ties broken
/// by rendered text.
pub fn entry_leq_exec(a: &Entry, b: &Entry) -> (r: bool)
    ensures
        r == entry_leq(a@, b@),
{
    if a.sort_key == b.sort_key {
        str_leq(a.rendered_text.as_str(), b.rendered_text.as_str())
    } else {
        str_leq(a.sort_key.as_str(), b.sort_key.as_str())
    }
}

/// Normalizes one raw record into an entry, deriving its sort key and its
/// rendered text. Never fails: this is where per-record failures stop.
pub fn normalize_record(r: &RawRecord, fallback_key: &str) -> (e: Entry)
    ensures
        e@ == spec_entry(*r, fallback_key@),
{
    let sort_key = match r {
        RawRecord::Narrative { date_added, .. } => date_added.clone(),
        RawRecord::Exposure { date_added: Some(d), .. } => d.clone(),
        RawRecord::Exposure { date_added: None, .. } => String::from_str(fallback_key),
        RawRecord::Block { date_added, .. } => date_added.clone(),
    };
    let rendered_text = render_record(r);
    Entry { sort_key, rendered_text }
}

} // verus!
