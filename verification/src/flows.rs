//! The update pipeline: an atomic version-checked write to the primary
//! store, followed by best-effort reindexing and notification whose
//! failures are isolated from the committed result.

use vstd::prelude::*;

use crate::entities::{Category, Entry, UpdateEntry};
use crate::error::{Error, IndexError, NotifyError};
use crate::gateways;
use crate::repo::Repo;
use crate::usecase::{self, unique_entry_ids, update_entry_post};

verus! {

/// The derived search index: incorporates updated records and makes them
/// visible on `flush`. Implemented by callers; nothing is assumed of its
/// behaviour, so its failures cannot affect what the pipeline promises.
pub trait EntryIndexer {
    /// Incorporate an updated record into the index.
    fn add_entry(&mut self, entry: &Entry) -> Result<(), IndexError>;

    /// Make incorporated records durable and visible.
    fn flush(&mut self) -> Result<(), IndexError>;
}

/// The notification dispatcher: selects the recipients interested in a
/// changed record and accepts the record together with the recipient set
/// and the stored classifications. Implemented by callers; nothing is
/// assumed of its behaviour.
pub trait Notifier {
    /// The addresses interested in a changed record, selected by the
    /// dispatcher — by geographic proximity, for instance.
    fn recipients(&mut self, entry: &Entry) -> Vec<String>;

    /// Dispatch messages describing an updated record to the recipients.
    fn entry_updated(
        &mut self,
        recipients: &Vec<String>,
        entry: &Entry,
        categories: &Vec<Category>,
    ) -> Result<(), NotifyError>;
}

/// Update an entry through the three-phase pipeline. The version-checked
/// write alone decides the caller-visible result and the stored state;
/// reindexing and notification run after it, and their failures are
/// swallowed — they never undo, nor appear to undo, the committed write.
pub fn update_entry<RE: Repo<Entry>, RC: Repo<Category>, I: EntryIndexer, N: Notifier>(
    re: &mut RE,
    rc: &RC,
    indexer: &mut I,
    notifier: &mut N,
    e: UpdateEntry,
) -> (res: Result<Entry, Error>)
    requires
        unique_entry_ids(old(re).repo()),
        e@.version < u64::MAX,
    ensures
        match res {
            Ok(entry) => exists|created: u64|
                #![auto]
                update_entry_post(old(re).repo(), final(re).repo(), e@, created, Ok(entry@)),
            Err(err) => update_entry_post(old(re).repo(), final(re).repo(), e@, 0, Err(err)),
        },
{
    let created = gateways::now_timestamp();
    let place = match usecase::store_updated_entry(re, e, created) {
        Ok(entry) => entry,
        Err(err) => {
            return Err(err);
        },
    };
    // reindex the updated record; a failure here is the indexer's to log
    // and must never look like a failure of the committed write
    let index_res = match indexer.add_entry(&place) {
        Ok(()) => indexer.flush(),
        Err(err) => Err(err),
    };
    let _ = index_res;
    // dispatch subscription notifications, under the same isolation rule
    let _ = notify_entry_updated(rc, notifier, &place);
    Ok(place)
}

/// Gather the interested recipients and the stored classifications, then
/// hand the updated record to the notification dispatcher.
fn notify_entry_updated<RC: Repo<Category>, N: Notifier>(
    rc: &RC,
    notifier: &mut N,
    place: &Entry,
) -> Result<(), NotifyError> {
    let recipients = notifier.recipients(place);
    let all_categories = match rc.all() {
        Ok(cs) => cs,
        Err(_) => {
            return Err(NotifyError);
        },
    };
    notifier.entry_updated(&recipients, place, &all_categories)
}

} // verus!
