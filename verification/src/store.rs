//! The store of jobs and notifications: how it is opened, and which notifications are read from it.
use crate::text;
use vstd::prelude::*;
use vstd::string::*;

verus! {

/// What an error says when a column is added that is there.
pub const DUPLICATE_COLUMN: &'static str = "duplicate column name";

/// The address of the store in the file `path`, which is created if `create` says so.
pub fn store_url(path: &str, create: bool) -> (url: String)
    ensures
        url@ == "sqlite://"@ + path@ + if create {
            "?mode=rwc"@
        } else {
            "?mode=rw"@
        },
{
    let mode = if create {
        "?mode=rwc"
    } else {
        "?mode=rw"
    };
    "sqlite://".to_owned().concat(path).concat(mode)
}

/// The statement that adds a column to the table of jobs.
pub fn add_column_statement(column: &str) -> (statement: String)
    ensures
        statement@ == "ALTER TABLE jobs ADD COLUMN "@ + column@,
{
    "ALTER TABLE jobs ADD COLUMN ".to_owned().concat(column)
}

/// What comes of adding a column, given the error that the store reports, if it does: that the
/// column is there already is no error.
pub fn column_is_there(error: &Option<String>) -> (there: bool)
    ensures
        there == match *error {
            Some(error) => text::find_text_of(error@, DUPLICATE_COLUMN@, 0) is Some,
            None => true,
        },
{
    match error {
        Some(error) => {
            let chars = text::chars_of(error.as_str());
            match text::find_text(&chars, DUPLICATE_COLUMN) {
                Some(_) => true,
                None => false,
            }
        },
        None => true,
    }
}

/// A notification in the store.
#[derive(Debug, Clone, PartialEq, Eq)]
pub struct NotificationRow {
    pub job_id: String,
    pub notification_path: String,
    /// When it was read, if it was.
    pub read_at: Option<i64>,
}

/// Which notifications are shown: all of them, or those that were not read.
pub open spec fn is_shown(include_read: bool) -> spec_fn(NotificationRow) -> bool {
    |row: NotificationRow| include_read || row.read_at is None
}

/// Picks the notifications that are shown, in their order.
pub fn notification_rows(rows: &Vec<NotificationRow>, include_read: bool) -> (shown: Vec<
    NotificationRow,
>)
    ensures
        shown@ == rows@.filter(is_shown(include_read)),
{
    let mut shown: Vec<NotificationRow> = Vec::new();
    let mut i: usize = 0;
    proof {
        reveal(Seq::filter);
        assert(rows@.take(0).filter(is_shown(include_read)) =~= Seq::empty());
    }
    while i < rows.len()
        invariant
            i <= rows@.len(),
            shown@ == rows@.take(i as int).filter(is_shown(include_read)),
        decreases rows@.len() - i,
    {
        let row = &rows[i];
        proof {
            reveal(Seq::filter);
            assert(rows@.take(i as int + 1).drop_last() =~= rows@.take(i as int));
        }
        if include_read || row.read_at.is_none() {
            shown.push(
                NotificationRow {
                    job_id: row.job_id.clone(),
                    notification_path: row.notification_path.clone(),
                    read_at: row.read_at,
                },
            );
        }
        i = i + 1;
    }
    assert(rows@.take(i as int) =~= rows@);
    shown
}

/// Once the notifications that were shown are marked as read, none of them is shown again.
pub proof fn law_notifications_are_shown_once(
    before: Seq<NotificationRow>,
    after: Seq<NotificationRow>,
)
    requires
        after.len() == before.len(),
        forall|i: int|
            0 <= i < before.len() && before.filter(is_shown(false)).contains(before[i])
                ==> (#[trigger] after[i]).read_at is Some,
        forall|i: int|
            0 <= i < before.len() && !before.filter(is_shown(false)).contains(before[i])
                ==> #[trigger] after[i] == before[i],
    ensures
        after.filter(is_shown(false)).len() == 0,
{
    let again = after.filter(is_shown(false));
    if again.len() > 0 {
        after.lemma_filter_pred(is_shown(false), 0);
        assert(again.contains(again[0]));
        after.lemma_filter_contains_rev(is_shown(false), again[0]);
        let i = choose|i: int| 0 <= i < after.len() && after[i] == again[0];
        assert(after[i].read_at is None);
        if is_shown(false)(before[i]) {
            before.lemma_filter_contains(is_shown(false), i);
        }
        if before.filter(is_shown(false)).contains(before[i]) {
            assert(after[i].read_at is Some);
        } else {
            assert(after[i] == before[i]);
        }
    }
}

/// A notification is shown exactly if it was not read, or if those that were read are asked for.
pub proof fn law_unread_notifications_are_shown(rows: Seq<NotificationRow>, i: int)
    requires
        0 <= i < rows.len(),
    ensures
        rows.filter(is_shown(false)).contains(rows[i]) <==> rows[i].read_at is None,
        rows.filter(is_shown(true)).contains(rows[i]),
        forall|k: int|
            0 <= k < rows.filter(is_shown(false)).len() ==> (#[trigger] rows.filter(
                is_shown(false),
            )[k]).read_at is None,
{
    let unread = rows.filter(is_shown(false));
    rows.lemma_filter_contains(is_shown(true), i);
    if rows[i].read_at is None {
        rows.lemma_filter_contains(is_shown(false), i);
    }
    assert forall|k: int| 0 <= k < unread.len() implies (#[trigger] unread[k]).read_at is None by {
        rows.lemma_filter_pred(is_shown(false), k);
    }
}

} // verus!
