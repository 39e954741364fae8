//! What a registration does to the files of the system: a model of the
//! files, and the proof that a registration which fails leaves the table of
//! persistent mounts as it found it.

use vstd::prelude::*;
use crate::command::{OperationView, ProgressView, ReplyView};
use crate::mount_manager::{
    asks_for, backup_path, backup_plan, checked_table, entry_plan,
    lemma_failed_registration_is_rolled_back, lemma_preparation_reads_what_is_there,
    lemma_preparation_writes_no_file, mount_failure, mount_success, prepare_from, prepare_plan,
    read_table_plan, registration_plan, rendered, rewritten_table, saved_copy, temporary_path,
    transaction_plan, writes_to, MountConfigView, MountEntryView, MountErrorView,
    MountResultView,
};
use crate::text::decimal_text;

verus! {

/// The first `count` replies of the two lists are the same.
pub open spec fn same_start(first: Seq<ReplyView>, second: Seq<ReplyView>, count: int) -> bool {
    &&& 0 <= count <= first.len()
    &&& count <= second.len()
    &&& forall|i: int| 0 <= i < count ==> first[i] == second[i]
}

/// A backup that has ended has read its own replies only: it ends in the
/// same way on every list of replies that begins with those it has read.
pub proof fn lemma_backup_reads_its_replies_only(
    table: Seq<char>,
    first: Seq<ReplyView>,
    second: Seq<ReplyView>,
)
    requires
        !(backup_plan(table, first) is Run),
        same_start(first, second, backup_plan(table, first).used()),
    ensures
        backup_plan(table, second) == backup_plan(table, first),
{
}

/// The preparation of one entry that has ended has read its own replies
/// only.
pub proof fn lemma_entry_reads_its_replies_only(
    device: Seq<char>,
    config: MountConfigView,
    first: Seq<ReplyView>,
    second: Seq<ReplyView>,
)
    requires
        !(entry_plan(device, config, first) is Run),
        same_start(first, second, entry_plan(device, config, first).used()),
    ensures
        entry_plan(device, config, second) == entry_plan(device, config, first),
{
}

/// A transaction that has ended has read its own replies only.
pub proof fn lemma_transaction_reads_its_replies_only(
    table: Seq<char>,
    entries: Seq<MountEntryView>,
    config: MountConfigView,
    first: Seq<ReplyView>,
    second: Seq<ReplyView>,
)
    requires
        !(transaction_plan(table, entries, config, first) is Run),
        same_start(first, second, transaction_plan(table, entries, config, first).used()),
    ensures
        transaction_plan(table, entries, config, second) == transaction_plan(
            table,
            entries,
            config,
            first,
        ),
{
}

/// The preparation of the entries never fails.
pub proof fn lemma_preparation_never_fails(
    devices: Seq<Seq<char>>,
    config: MountConfigView,
    replies: Seq<ReplyView>,
    at: int,
    used: int,
    entries: Seq<MountEntryView>,
    results: Seq<MountResultView>,
)
    ensures
        !(prepare_from(devices, config, replies, at, used, entries, results) is Failed),
    decreases devices.len() - at,
{
    if 0 <= at < devices.len() {
        match entry_plan(devices[at], config, replies.skip(used)) {
            ProgressView::Run(_) => {},
            ProgressView::Failed(error, n) => {
                lemma_preparation_never_fails(
                    devices,
                    config,
                    replies,
                    at + 1,
                    used + n,
                    entries,
                    results.push(mount_failure(devices[at], error)),
                );
            },
            ProgressView::Done(entry, n) => {
                lemma_preparation_never_fails(
                    devices,
                    config,
                    replies,
                    at + 1,
                    used + n,
                    entries.push(entry),
                    results.push(mount_success(entry)),
                );
            },
        }
    }
}

/// A preparation that has ended has read its own replies only.
pub proof fn lemma_preparation_reads_its_replies_only(
    devices: Seq<Seq<char>>,
    config: MountConfigView,
    first: Seq<ReplyView>,
    second: Seq<ReplyView>,
    at: int,
    used: int,
    entries: Seq<MountEntryView>,
    results: Seq<MountResultView>,
)
    requires
        0 <= used <= first.len(),
        !(prepare_from(devices, config, first, at, used, entries, results) is Run),
        same_start(
            first,
            second,
            prepare_from(devices, config, first, at, used, entries, results).used(),
        ),
    ensures
        prepare_from(devices, config, second, at, used, entries, results) == prepare_from(
            devices,
            config,
            first,
            at,
            used,
            entries,
            results,
        ),
    decreases devices.len() - at,
{
    lemma_preparation_reads_what_is_there(devices, config, first, at, used, entries, results);
    if 0 <= at < devices.len() {
        let one = entry_plan(devices[at], config, first.skip(used));
        match one {
            ProgressView::Run(_) => {},
            ProgressView::Failed(error, n) => {
                let next = results.push(mount_failure(devices[at], error));
                lemma_preparation_reads_what_is_there(
                    devices,
                    config,
                    first,
                    at + 1,
                    used + n,
                    entries,
                    next,
                );
                lemma_entry_reads_its_replies_only(
                    devices[at],
                    config,
                    first.skip(used),
                    second.skip(used),
                );
                lemma_preparation_reads_its_replies_only(
                    devices,
                    config,
                    first,
                    second,
                    at + 1,
                    used + n,
                    entries,
                    next,
                );
            },
            ProgressView::Done(entry, n) => {
                let next = results.push(mount_success(entry));
                lemma_preparation_reads_what_is_there(
                    devices,
                    config,
                    first,
                    at + 1,
                    used + n,
                    entries.push(entry),
                    next,
                );
                lemma_entry_reads_its_replies_only(
                    devices[at],
                    config,
                    first.skip(used),
                    second.skip(used),
                );
                lemma_preparation_reads_its_replies_only(
                    devices,
                    config,
                    first,
                    second,
                    at + 1,
                    used + n,
                    entries.push(entry),
                    next,
                );
            },
        }
    }
}

/// The content of the file `path` among `files`, if there is such a file.
pub open spec fn content_of(files: Map<Seq<char>, Seq<char>>, path: Seq<char>) -> Option<
    Seq<char>,
> {
    if files.dom().contains(path) {
        Some(files[path])
    } else {
        None
    }
}

/// The files after `operation` was answered with `reply`, where they were
/// `files` before: an operation that has not finished leaves them as they
/// are; a copy and a move need their source; every other operation changes
/// no file.
pub open spec fn carried_out(
    operation: OperationView,
    reply: ReplyView,
    files: Map<Seq<char>, Seq<char>>,
) -> Map<Seq<char>, Seq<char>> {
    if reply != ReplyView::Finished {
        files
    } else {
        match operation {
            OperationView::CopyFile { from, to } => if files.dom().contains(from) {
                files.insert(to, files[from])
            } else {
                files
            },
            OperationView::WriteFile { path, content } => files.insert(path, content),
            OperationView::Rename { from, to } => if files.dom().contains(from) && from != to {
                files.insert(to, files[from]).remove(from)
            } else {
                files
            },
            _ => files,
        }
    }
}

/// The files after the first `count` replies of a registration, where they
/// were `files` before it began: each operation that the registration has
/// asked for was carried out and answered with the next reply.
pub open spec fn files_after(
    table: Seq<char>,
    devices: Seq<Seq<char>>,
    config: MountConfigView,
    replies: Seq<ReplyView>,
    files: Map<Seq<char>, Seq<char>>,
    count: nat,
) -> Map<Seq<char>, Seq<char>>
    decreases count,
{
    if count == 0 || count > replies.len() {
        files
    } else {
        let before = files_after(table, devices, config, replies, files, (count - 1) as nat);
        match registration_plan(table, devices, config, replies.take(count - 1)) {
            ProgressView::Run(operation) => carried_out(operation, replies[count - 1], before),
            _ => before,
        }
    }
}

/// The operation changes or takes away the file `path`.
pub open spec fn touches(operation: OperationView, path: Seq<char>) -> bool {
    writes_to(operation, path) || (operation matches OperationView::Rename { from, .. } && from
        == path)
}

/// The saved copy is touched once only, when it is made. A registration
/// that saves the table asks for an operation that changes or takes away
/// the copy only as the second of its operations.
pub proof fn lemma_copy_is_touched_once(
    table: Seq<char>,
    devices: Seq<Seq<char>>,
    config: MountConfigView,
    replies: Seq<ReplyView>,
    time: u64,
)
    requires
        config.backup_fstab,
        replies.len() > 0,
        replies[0] == ReplyView::Number(time),
    ensures
        registration_plan(table, devices, config, replies) matches ProgressView::Run(asked)
            ==> !touches(asked, backup_path(table, time)) || replies.len() == 1,
{
    reveal_strlit(".tmp");
    reveal_strlit(".backup.");
    let copy = backup_path(table, time);
    let temporary = temporary_path(table);
    assert(copy.len() == table.len() + 8 + decimal_text(time as nat).len());
    assert(temporary.len() == table.len() + 4);
    assert(copy[table.len() as int + 1] == 'b');
    assert(temporary[table.len() as int + 1] == 't');
    match backup_plan(table, replies) {
        ProgressView::Done(_, used) => {
            lemma_preparation_writes_no_file(
                devices,
                config,
                replies.skip(used),
                0,
                0,
                Seq::empty(),
                Seq::empty(),
            );
        },
        _ => {},
    }
}

/// The copy that a finished backup has made is the table as it was. After
/// the first two replies of a registration that has saved the table, the
/// files are those from before with the copy added, which holds what the
/// table holds.
pub proof fn lemma_copy_is_made(
    table: Seq<char>,
    devices: Seq<Seq<char>>,
    config: MountConfigView,
    replies: Seq<ReplyView>,
    files: Map<Seq<char>, Seq<char>>,
)
    requires
        config.backup_fstab,
        backup_plan(table, replies) is Done,
        files.dom().contains(table),
    ensures
        replies.len() >= 4,
        replies[0] is Number,
        files_after(table, devices, config, replies, files, 2) == files.insert(
            backup_plan(table, replies)->Done_0,
            files[table],
        ),
{
    assert(replies.take(0).len() == 0);
    assert(replies.take(1).len() == 1);
    assert(replies.take(1)[0] == replies[0]);
    assert(files_after(table, devices, config, replies, files, 0) == files);
    assert(files_after(table, devices, config, replies, files, 1) == files);
}

/// The copy is kept. From the second reply on, the copy that a
/// registration has made holds what the table held when the registration
/// began.
pub proof fn lemma_copy_is_kept(
    table: Seq<char>,
    devices: Seq<Seq<char>>,
    config: MountConfigView,
    replies: Seq<ReplyView>,
    files: Map<Seq<char>, Seq<char>>,
    count: nat,
)
    requires
        config.backup_fstab,
        backup_plan(table, replies) is Done,
        files.dom().contains(table),
        2 <= count <= replies.len(),
    ensures
        content_of(
            files_after(table, devices, config, replies, files, count),
            backup_plan(table, replies)->Done_0,
        ) == Some(files[table]),
    decreases count,
{
    lemma_copy_is_made(table, devices, config, replies, files);
    if count > 2 {
        lemma_copy_is_kept(table, devices, config, replies, files, (count - 1) as nat);
        let given = replies.take(count - 1);
        assert(given[0] == replies[0]);
        lemma_copy_is_touched_once(table, devices, config, given, replies[0]->Number_0);
    }
}

/// The last operation of a registration that fails after it has saved the
/// table puts the copy back: a registration that has ended in failure with
/// its last reply, and had saved the table, has asked for the copy to be
/// put back over the table just before that reply.
pub proof fn lemma_last_operation_restores(
    table: Seq<char>,
    devices: Seq<Seq<char>>,
    config: MountConfigView,
    replies: Seq<ReplyView>,
)
    requires
        config.backup_fstab,
        backup_plan(table, replies) is Done,
        registration_plan(table, devices, config, replies) is Failed,
        registration_plan(table, devices, config, replies).used() == replies.len(),
    ensures
        replies.len() >= 5,
        asks_for(
            registration_plan(table, devices, config, replies.take(replies.len() - 1)),
            OperationView::CopyFile { from: backup_plan(table, replies)->Done_0, to: table },
        ),
{
    let saved = backup_plan(table, replies).used();
    let after_backup = replies.skip(saved);
    lemma_preparation_never_fails(
        devices,
        config,
        after_backup,
        0,
        0,
        Seq::empty(),
        Seq::empty(),
    );
    lemma_preparation_reads_what_is_there(
        devices,
        config,
        after_backup,
        0,
        0,
        Seq::empty(),
        Seq::empty(),
    );
    let prepared = prepare_plan(devices, config, after_backup);
    let rest = replies.skip(saved + prepared.used());
    let entries = prepared->Done_0.0;
    let transaction = transaction_plan(table, entries, config, rest);
    lemma_failed_registration_is_rolled_back(table, devices, config, replies);
    let before = saved + prepared.used() + transaction.used();
    assert(replies.len() == before + 1);
    let given = replies.take(before);
    lemma_backup_reads_its_replies_only(table, replies, given);
    assert(same_start(after_backup, given.skip(saved), prepared.used()));
    lemma_preparation_reads_its_replies_only(
        devices,
        config,
        after_backup,
        given.skip(saved),
        0,
        0,
        Seq::empty(),
        Seq::empty(),
    );
    assert(same_start(rest, given.skip(saved + prepared.used()), transaction.used()));
    lemma_transaction_reads_its_replies_only(
        table,
        entries,
        config,
        rest,
        given.skip(saved + prepared.used()),
    );
    lemma_failed_registration_is_rolled_back(table, devices, config, given);
}

/// A registration that fails puts the table back as it was. Where the
/// registration has saved the table, has ended in failure with its last
/// reply, and that reply says that the copy was put back, the table holds
/// what it held before the registration began.
pub proof fn lemma_rolled_back_table_is_as_before(
    table: Seq<char>,
    devices: Seq<Seq<char>>,
    config: MountConfigView,
    replies: Seq<ReplyView>,
    files: Map<Seq<char>, Seq<char>>,
)
    requires
        config.backup_fstab,
        files.dom().contains(table),
        backup_plan(table, replies) is Done,
        registration_plan(table, devices, config, replies) is Failed,
        registration_plan(table, devices, config, replies).used() == replies.len(),
        replies.last() == ReplyView::Finished,
    ensures
        content_of(
            files_after(table, devices, config, replies, files, replies.len()),
            table,
        ) == content_of(files, table),
{
    lemma_last_operation_restores(table, devices, config, replies);
    lemma_copy_is_kept(table, devices, config, replies, files, (replies.len() - 1) as nat);
}

/// The number of replies that the backup of a registration has read, once
/// it is made; none where the registration makes no backup.
pub open spec fn replies_of_backup(
    table: Seq<char>,
    config: MountConfigView,
    replies: Seq<ReplyView>,
) -> Option<int> {
    if !config.backup_fstab {
        Some(0)
    } else {
        match backup_plan(table, replies) {
            ProgressView::Done(_, used) => Some(used),
            _ => None,
        }
    }
}

/// The content that a registration has built for the table, if the
/// replies reach that far: the table as it was read, with the prepared
/// entries registered.
pub open spec fn built_content(
    table: Seq<char>,
    devices: Seq<Seq<char>>,
    config: MountConfigView,
    replies: Seq<ReplyView>,
) -> Option<Seq<char>> {
    match replies_of_backup(table, config, replies) {
        None => None,
        Some(saved) => match prepare_plan(devices, config, replies.skip(saved)) {
            ProgressView::Done(prepared, used) => if prepared.0.len() == 0 {
                None
            } else {
                match read_table_plan(table, replies.skip(saved + used)) {
                    ProgressView::Done(current, _) => Some(
                        rendered(rewritten_table(current, prepared.0)),
                    ),
                    _ => None,
                }
            },
            _ => None,
        },
    }
}

/// The plan has failed because the content of the table did not pass the
/// check.
pub open spec fn fails_the_check<T>(plan: ProgressView<T, MountErrorView>) -> bool {
    plan matches ProgressView::Failed(error, _) && error is ValidationFailed
}

/// A registration that fails with the error of the check has built content
/// that does not pass the check, and was to check it.
pub proof fn lemma_failed_check_is_of_built_content(
    table: Seq<char>,
    devices: Seq<Seq<char>>,
    config: MountConfigView,
    replies: Seq<ReplyView>,
)
    requires
        fails_the_check(registration_plan(table, devices, config, replies)),
    ensures
        config.validate_before_write,
        built_content(table, devices, config, replies) is Some,
        checked_table(built_content(table, devices, config, replies)->Some_0) is Err,
{
    match replies_of_backup(table, config, replies) {
        Some(saved) => {
            lemma_preparation_never_fails(
                devices,
                config,
                replies.skip(saved),
                0,
                0,
                Seq::empty(),
                Seq::empty(),
            );
        },
        None => {},
    }
}

/// A registration that asks for the temporary file to be moved over the
/// table has built the content of that file, and where it was to check the
/// content, the content has passed the check.
pub proof fn lemma_installed_content_is_built_and_checked(
    table: Seq<char>,
    devices: Seq<Seq<char>>,
    config: MountConfigView,
    replies: Seq<ReplyView>,
)
    requires
        asks_for(
            registration_plan(table, devices, config, replies),
            OperationView::Rename { from: temporary_path(table), to: table },
        ),
    ensures
        built_content(table, devices, config, replies) is Some,
        config.validate_before_write ==> checked_table(
            built_content(table, devices, config, replies)->Some_0,
        ) is Ok,
{
    match replies_of_backup(table, config, replies) {
        Some(saved) => {
            lemma_preparation_writes_no_file(
                devices,
                config,
                replies.skip(saved),
                0,
                0,
                Seq::empty(),
                Seq::empty(),
            );
        },
        None => {},
    }
}

/// The content that a registration has built stays as it is when further
/// replies follow.
pub proof fn lemma_built_content_stays(
    table: Seq<char>,
    devices: Seq<Seq<char>>,
    config: MountConfigView,
    first: Seq<ReplyView>,
    second: Seq<ReplyView>,
)
    requires
        built_content(table, devices, config, first) is Some,
        same_start(first, second, first.len() as int),
    ensures
        built_content(table, devices, config, second) == built_content(
            table,
            devices,
            config,
            first,
        ),
{
    let saved = replies_of_backup(table, config, first)->Some_0;
    if config.backup_fstab {
        lemma_backup_reads_its_replies_only(table, first, second);
    }
    lemma_preparation_reads_what_is_there(
        devices,
        config,
        first.skip(saved),
        0,
        0,
        Seq::empty(),
        Seq::empty(),
    );
    let prepared = prepare_plan(devices, config, first.skip(saved));
    assert(same_start(first.skip(saved), second.skip(saved), prepared.used()));
    lemma_preparation_reads_its_replies_only(
        devices,
        config,
        first.skip(saved),
        second.skip(saved),
        0,
        0,
        Seq::empty(),
        Seq::empty(),
    );
}

/// A registration whose content does not pass the check never asks for the
/// table to be replaced by it: while the replies are those of such a
/// registration, no move of the temporary file over the table is asked for.
pub proof fn lemma_refused_content_is_not_installed(
    table: Seq<char>,
    devices: Seq<Seq<char>>,
    config: MountConfigView,
    replies: Seq<ReplyView>,
    count: int,
)
    requires
        fails_the_check(registration_plan(table, devices, config, replies)),
        0 <= count <= replies.len(),
    ensures
        !asks_for(
            registration_plan(table, devices, config, replies.take(count)),
            OperationView::Rename { from: temporary_path(table), to: table },
        ),
{
    let given = replies.take(count);
    if asks_for(
        registration_plan(table, devices, config, given),
        OperationView::Rename { from: temporary_path(table), to: table },
    ) {
        lemma_failed_check_is_of_built_content(table, devices, config, replies);
        lemma_installed_content_is_built_and_checked(table, devices, config, given);
        lemma_built_content_stays(table, devices, config, given, replies);
    }
}

/// A registration changes or takes away the table in two ways only: by the
/// move of the temporary file over the table, and by putting the saved copy
/// back.
pub proof fn lemma_table_is_touched_by_install_or_restore(
    table: Seq<char>,
    devices: Seq<Seq<char>>,
    config: MountConfigView,
    replies: Seq<ReplyView>,
)
    ensures
        registration_plan(table, devices, config, replies) matches ProgressView::Run(asked)
            ==> !touches(asked, table) || asked == (OperationView::Rename {
            from: temporary_path(table),
            to: table,
        }) || (saved_copy(table, config, replies) matches Some(copy) && asked
            == OperationView::CopyFile { from: copy, to: table }),
{
    reveal_strlit(".tmp");
    reveal_strlit(".backup.");
    assert(temporary_path(table).len() == table.len() + 4);
    assert forall|time: u64| (#[trigger] backup_path(table, time)).len() > table.len() by {
        assert(backup_path(table, time).len() == table.len() + 8 + decimal_text(
            time as nat,
        ).len());
    }
    match replies_of_backup(table, config, replies) {
        Some(saved) => {
            lemma_preparation_writes_no_file(
                devices,
                config,
                replies.skip(saved),
                0,
                0,
                Seq::empty(),
                Seq::empty(),
            );
        },
        None => {},
    }
}

/// A table that fails the check stays as it was, at every point of the
/// registration: where a registration fails because the content that it has
/// built does not pass the check, the table holds after each of the replies
/// what it held before the registration began.
pub proof fn lemma_refused_table_is_as_before(
    table: Seq<char>,
    devices: Seq<Seq<char>>,
    config: MountConfigView,
    replies: Seq<ReplyView>,
    files: Map<Seq<char>, Seq<char>>,
    count: nat,
)
    requires
        fails_the_check(registration_plan(table, devices, config, replies)),
        config.backup_fstab ==> files.dom().contains(table),
        count <= replies.len(),
    ensures
        content_of(files_after(table, devices, config, replies, files, count), table)
            == content_of(files, table),
    decreases count,
{
    if count > 0 {
        lemma_refused_table_is_as_before(
            table,
            devices,
            config,
            replies,
            files,
            (count - 1) as nat,
        );
        let given = replies.take(count - 1);
        let before = files_after(table, devices, config, replies, files, (count - 1) as nat);
        lemma_refused_content_is_not_installed(table, devices, config, replies, count - 1);
        lemma_table_is_touched_by_install_or_restore(table, devices, config, given);
        match registration_plan(table, devices, config, given) {
            ProgressView::Run(asked) => {
                if touches(asked, table) {
                    let copy = saved_copy(table, config, given)->Some_0;
                    lemma_backup_reads_its_replies_only(table, given, replies);
                    lemma_copy_is_kept(
                        table,
                        devices,
                        config,
                        replies,
                        files,
                        (count - 1) as nat,
                    );
                }
            },
            _ => {},
        }
    }
}

/// A registration of content that does not pass the check never succeeds.
/// Where the registration is to check the table and the content that it
/// has built does not pass, it does not end well; it fails with the error
/// of the check, or with that of the system where the temporary file could
/// not be written.
pub proof fn lemma_registration_of_refused_content_fails(
    table: Seq<char>,
    devices: Seq<Seq<char>>,
    config: MountConfigView,
    replies: Seq<ReplyView>,
)
    requires
        config.validate_before_write,
        built_content(table, devices, config, replies) is Some,
        checked_table(built_content(table, devices, config, replies)->Some_0) is Err,
    ensures
        match registration_plan(table, devices, config, replies) {
            ProgressView::Run(_) => true,
            ProgressView::Done(_, _) => false,
            ProgressView::Failed(error, _) => Err::<(), MountErrorView>(error) == checked_table(
                built_content(table, devices, config, replies)->Some_0,
            ) || error is IoError,
        },
{
}

} // verus!
