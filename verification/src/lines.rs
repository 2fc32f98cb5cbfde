//! The lines of a report in text.

use vstd::prelude::*;

use crate::change::ScanChange;
use crate::duplicate::{claimants_of, contested, game_contested, ClaimIndex, DuplicateDetector, ResourceKeyModel};
use crate::layout::{BackupModel, Os};
use crate::listing::place_of;
use crate::report::OperationStepDecision;
use crate::scan::{succeeded_size_sum, BackupInfo, ScanInfo, ScannedFile, ScannedRegistry};
use crate::status::{OperationStatus, StatusModel};
use crate::text::{adjusted_size, decimal, decimal_text, rank_by_text, size_text, text_ranking, texts_of};

verus! {

/// The mark for how an application was handled, in its header.
pub open spec fn decision_mark(decision: OperationStepDecision) -> Seq<char> {
    match decision {
        OperationStepDecision::Processed => ""@,
        OperationStepDecision::Cancelled => " [CANCELLED]"@,
        OperationStepDecision::Ignored => " [IGNORED]"@,
    }
}

/// The mark for an application with contested resources, in its header.
pub open spec fn duplicates_mark(duplicated: bool) -> Seq<char> {
    if duplicated {
        " [DUPLICATES]"@
    } else {
        ""@
    }
}

/// The mark for a change, in a header: it follows the other marks.
pub open spec fn change_mark(change: ScanChange) -> Seq<char> {
    match change {
        ScanChange::New => " [+]"@,
        ScanChange::Different => " [Δ]"@,
        ScanChange::Same => ""@,
        ScanChange::Unknown => ""@,
    }
}

/// The first line of an application: its name, the size of what was
/// handled, and its marks.
pub open spec fn header_text(
    name: Seq<char>,
    bytes: nat,
    decision: OperationStepDecision,
    duplicated: bool,
    change: ScanChange,
) -> Seq<char> {
    name + " ["@ + size_text(bytes) + "]"@ + decision_mark(decision) + duplicates_mark(duplicated)
        + change_mark(change) + ":"@
}

/// Writes the first line of an application.
pub fn cli_game_header(
    name: &str,
    bytes: u64,
    decision: OperationStepDecision,
    duplicated: bool,
    change: ScanChange,
) -> (line: String)
    ensures
        line@ == header_text(name@, bytes as nat, decision, duplicated, change),
{
    let mut line = name.to_owned();
    line.append(" [");
    line.append(adjusted_size(bytes).as_str());
    line.append("]");
    line.append(
        match decision {
            OperationStepDecision::Processed => "",
            OperationStepDecision::Cancelled => " [CANCELLED]",
            OperationStepDecision::Ignored => " [IGNORED]",
        },
    );
    line.append(
        if duplicated {
            " [DUPLICATES]"
        } else {
            ""
        },
    );
    line.append(
        match change {
            ScanChange::New => " [+]",
            ScanChange::Different => " [Δ]",
            ScanChange::Same => "",
            ScanChange::Unknown => "",
        },
    );
    line.append(":");
    line
}

/// The mark for a change, before an entry.
pub open spec fn change_badge(change: ScanChange) -> Seq<char> {
    match change {
        ScanChange::New => "[+] "@,
        ScanChange::Different => "[Δ] "@,
        ScanChange::Same => ""@,
        ScanChange::Unknown => ""@,
    }
}

/// The line of an entry: indented once, or twice where it is nested,
/// then its marks, then the entry itself.
pub open spec fn line_item_text(
    item: Seq<char>,
    successful: bool,
    ignored: bool,
    duplicated: bool,
    change: ScanChange,
    nested: bool,
) -> Seq<char> {
    (if nested {
        "    - "@
    } else {
        "  - "@
    }) + (if successful {
        ""@
    } else {
        "[FAILED] "@
    }) + (if ignored {
        "[IGNORED] "@
    } else {
        ""@
    }) + (if duplicated {
        "[DUPLICATED] "@
    } else {
        ""@
    }) + change_badge(change) + item
}

/// Writes the line of an entry.
pub fn cli_game_line_item(
    item: &str,
    successful: bool,
    ignored: bool,
    duplicated: bool,
    change: ScanChange,
    nested: bool,
) -> (line: String)
    ensures
        line@ == line_item_text(item@, successful, ignored, duplicated, change, nested),
{
    let mut line = (if nested {
        "    - "
    } else {
        "  - "
    }).to_owned();
    line.append(
        if successful {
            ""
        } else {
            "[FAILED] "
        },
    );
    line.append(
        if ignored {
            "[IGNORED] "
        } else {
            ""
        },
    );
    line.append(
        if duplicated {
            "[DUPLICATED] "
        } else {
            ""
        },
    );
    line.append(
        match change {
            ScanChange::New => "[+] ",
            ScanChange::Different => "[Δ] ",
            ScanChange::Same => "",
            ScanChange::Unknown => "",
        },
    );
    line.append(item);
    line
}

/// The line below a restored file that names where it came from.
pub open spec fn redirected_text(from: Seq<char>) -> Seq<char> {
    "    - Redirected from: "@ + from
}

/// The line below a backed-up file that names where a redirect sends it.
pub open spec fn redirecting_text(to: Seq<char>) -> Seq<char> {
    "    - Redirecting to: "@ + to
}

/// The line below a failed entry that gives the cause.
pub open spec fn error_text(message: Seq<char>) -> Seq<char> {
    "    - "@ + message
}

/// Writes the line that names where a restored file came from.
pub fn cli_game_line_item_redirected(from: &str) -> (line: String)
    ensures
        line@ == redirected_text(from@),
{
    let mut line = "    - Redirected from: ".to_owned();
    line.append(from);
    line
}

/// Writes the line that names where a redirect sends a backed-up file.
pub fn cli_game_line_item_redirecting(to: &str) -> (line: String)
    ensures
        line@ == redirecting_text(to@),
{
    let mut line = "    - Redirecting to: ".to_owned();
    line.append(to);
    line
}

/// Writes the line that gives the cause of a failure.
pub fn cli_game_line_item_error(message: &str) -> (line: String)
    ensures
        line@ == error_text(message@),
{
    let mut line = "    - ".to_owned();
    line.append(message);
    line
}

/// A count of applications in the summary: after `sign`, in brackets;
/// nothing where the count is zero.
pub open spec fn count_mark(sign: Seq<char>, count: nat) -> Seq<char> {
    if count > 0 {
        " ["@ + sign + decimal(count) + "]"@
    } else {
        ""@
    }
}

fn cli_count_mark(sign: &str, count: usize) -> (mark: String)
    ensures
        mark@ == count_mark(sign@, count as nat),
{
    if count > 0 {
        let mut mark = " [".to_owned();
        mark.append(sign);
        mark.append(decimal_text(count as u64).as_str());
        mark.append("]");
        mark
    } else {
        "".to_owned()
    }
}

/// How many applications the summary shows: all of them, or those
/// handled out of all.
pub open spec fn games_text(status: StatusModel) -> Seq<char> {
    if status.processed_games == status.total_games {
        decimal(status.total_games)
    } else {
        decimal(status.processed_games) + " / "@ + decimal(status.total_games)
    }
}

/// The size that the summary shows: the whole, or what was handled out of
/// the whole.
pub open spec fn bytes_text(status: StatusModel) -> Seq<char> {
    if status.processed_bytes == status.total_bytes {
        size_text(status.total_bytes)
    } else {
        size_text(status.processed_bytes) + " / "@ + size_text(status.total_bytes)
    }
}

/// The summary below the applications.
pub open spec fn summary_text(status: StatusModel, location: Seq<char>) -> Seq<char> {
    "Overall:\n  Games: "@ + games_text(status) + count_mark("+"@, status.new_games) + count_mark(
        "Δ"@,
        status.different_games,
    ) + "\n  Size: "@ + bytes_text(status) + "\n  Location: "@ + location
}

/// Writes the summary below the applications.
pub fn cli_summary(status: &OperationStatus, location: &str) -> (text: String)
    ensures
        text@ == summary_text(status@, location@),
{
    let games = if status.processed_all_games() {
        decimal_text(status.total_games() as u64)
    } else {
        let mut games = decimal_text(status.processed_games() as u64);
        games.append(" / ");
        games.append(decimal_text(status.total_games() as u64).as_str());
        games
    };
    let bytes = if status.processed_all_bytes() {
        adjusted_size(status.total_bytes())
    } else {
        let mut bytes = adjusted_size(status.processed_bytes());
        bytes.append(" / ");
        bytes.append(adjusted_size(status.total_bytes()).as_str());
        bytes
    };
    let counts = status.changed_games();
    let mut text = "Overall:\n  Games: ".to_owned();
    text.append(games.as_str());
    text.append(cli_count_mark("+", counts.new).as_str());
    text.append(cli_count_mark("Δ", counts.different).as_str());
    text.append("\n  Size: ");
    text.append(bytes.as_str());
    text.append("\n  Location: ");
    text.append(location);
    text
}

/// The name of an operating system, as shown.
pub open spec fn os_name(os: Os) -> Seq<char> {
    match os {
        Os::Windows => "Windows"@,
        Os::Linux => "Linux"@,
        Os::Mac => "Mac"@,
        Os::Other => "Other"@,
    }
}

/// The mark for the operating system of a snapshot, where it is known.
pub open spec fn os_mark(os: Option<Os>) -> Seq<char> {
    match os {
        Some(known) => " ["@ + os_name(known) + "]"@,
        None => ""@,
    }
}

/// The mark for a locked snapshot.
pub open spec fn lock_mark(locked: bool) -> Seq<char> {
    if locked {
        " [🔒]"@
    } else {
        ""@
    }
}

/// The comment of a snapshot at the end of its line.
pub open spec fn comment_mark(comment: Option<Seq<char>>) -> Seq<char> {
    match comment {
        Some(text) => " - "@ + text,
        None => ""@,
    }
}

/// The line of a snapshot: its name in quotes, the time given as
/// `time`, and its marks.
pub open spec fn backup_line_text(backup: BackupModel, time: Seq<char>) -> Seq<char> {
    "  - \""@ + backup.name + "\" ("@ + time + ")"@ + os_mark(backup.os) + lock_mark(backup.locked)
        + comment_mark(backup.comment)
}

/// Writes the line of a snapshot, with its time written as `time`.
pub fn cli_backup_line(backup: &crate::layout::Backup, time: &str) -> (line: String)
    ensures
        line@ == backup_line_text(backup@, time@),
{
    let os = match backup.os() {
        Some(known) => {
            let mut mark = " [".to_owned();
            mark.append(
                match known {
                    Os::Windows => "Windows",
                    Os::Linux => "Linux",
                    Os::Mac => "Mac",
                    Os::Other => "Other",
                },
            );
            mark.append("]");
            mark
        },
        None => "".to_owned(),
    };
    let comment = match backup.comment() {
        Some(text) => {
            let mut mark = " - ".to_owned();
            mark.append(text.as_str());
            mark
        },
        None => "".to_owned(),
    };
    let mut line = "  - \"".to_owned();
    line.append(backup.name());
    line.append("\" (");
    line.append(time);
    line.append(")");
    line.append(os.as_str());
    line.append(
        if backup.locked() {
            " [🔒]"
        } else {
            ""
        },
    );
    line.append(comment.as_str());
    line
}

/// The lines of a file: the file itself; where a redirect applies, the
/// other path; where it failed, the cause.
pub open spec fn file_lines(file: ScannedFile, info: BackupInfo, index: ClaimIndex, restoring: bool) -> Seq<
    Seq<char>,
> {
    seq![
        line_item_text(
            file@.readable(restoring),
            !info.file_failed(file.path@),
            file.ignored,
            contested(claimants_of(index, ResourceKeyModel::File(file.path@))),
            file.change,
            false,
        ),
    ] + (match file@.alt_readable(restoring) {
        Some(other) => seq![
            if restoring {
                redirected_text(other)
            } else {
                redirecting_text(other)
            },
        ],
        None => Seq::empty(),
    }) + (if info.file_failed(file.path@) {
        seq![error_text(info.failed_files@[place_of(info.failed_files@, file.path@)].1.spec_message())]
    } else {
        Seq::empty()
    })
}

/// Writes the lines of a file.
pub fn cli_file_lines(file: &ScannedFile, info: &BackupInfo, detector: &DuplicateDetector, restoring: bool) -> (lines:
    Vec<String>)
    ensures
        texts_of(lines@) == file_lines(*file, *info, detector@, restoring),
{
    let cause = info.file_error(file.path.as_str());
    let mut lines: Vec<String> = Vec::new();
    lines.push(
        cli_game_line_item(
            file.readable(restoring).as_str(),
            cause.is_none(),
            file.ignored,
            !detector.is_file_duplicated(file).resolved(),
            file.change,
            false,
        ),
    );
    match file.alt_readable(restoring) {
        Some(other) => {
            if restoring {
                lines.push(cli_game_line_item_redirected(other.as_str()));
            } else {
                lines.push(cli_game_line_item_redirecting(other.as_str()));
            }
        },
        None => {},
    }
    match cause {
        Some(error) => {
            lines.push(cli_game_line_item_error(error.message().as_str()));
        },
        None => {},
    }
    assert(texts_of(lines@) =~= file_lines(*file, *info, detector@, restoring));
    lines
}

/// The line of the value at place `v` under a registry key.
pub open spec fn value_line(key: ScannedRegistry, v: int, index: ClaimIndex) -> Seq<char> {
    line_item_text(
        key.values@[v].0@,
        true,
        key.values@[v].1.ignored,
        contested(claimants_of(index, ResourceKeyModel::RegistryValue(key.path@, key.values@[v].0@))),
        key.values@[v].1.change,
        true,
    )
}

/// The first lines of a registry key: the key itself and, where it
/// failed, the cause.
pub open spec fn registry_head_lines(key: ScannedRegistry, info: BackupInfo, index: ClaimIndex) -> Seq<Seq<char>> {
    seq![
        line_item_text(
            key.path@,
            !info.registry_failed(key.path@),
            key.ignored,
            contested(claimants_of(index, ResourceKeyModel::Registry(key.path@))),
            key.change,
            false,
        ),
    ] + (if info.registry_failed(key.path@) {
        seq![
            error_text(
                info.failed_registry@[place_of(info.failed_registry@, key.path@)].1.spec_message(),
            ),
        ]
    } else {
        Seq::empty()
    })
}

/// The lines of a registry key, with its values in the order `order` of
/// their places.
pub open spec fn registry_lines(key: ScannedRegistry, info: BackupInfo, index: ClaimIndex, order: Seq<usize>) -> Seq<
    Seq<char>,
> {
    registry_head_lines(key, info, index) + Seq::new(
        order.len(),
        |i: int| value_line(key, order[i] as int, index),
    )
}

/// Writes the lines of a registry key, with its values in the order
/// `order` of their places.
pub fn cli_registry_lines(
    key: &ScannedRegistry,
    info: &BackupInfo,
    detector: &DuplicateDetector,
    order: &Vec<usize>,
) -> (lines: Vec<String>)
    requires
        within(order@, key.values@.len()),
    ensures
        texts_of(lines@) == registry_lines(*key, *info, detector@, order@),
{
    let cause = info.registry_error(key.path.as_str());
    let mut lines: Vec<String> = Vec::new();
    lines.push(
        cli_game_line_item(
            key.path.as_str(),
            cause.is_none(),
            key.ignored,
            !detector.is_registry_duplicated(key.path.as_str()).resolved(),
            key.change,
            false,
        ),
    );
    match cause {
        Some(error) => {
            lines.push(cli_game_line_item_error(error.message().as_str()));
        },
        None => {},
    }
    let ghost head = texts_of(lines@);
    assert(head =~= registry_head_lines(*key, *info, detector@));
    let mut i: usize = 0;
    while i < order.len()
        invariant
            i <= order@.len(),
            within(order@, key.values@.len()),
            texts_of(lines@) == head + Seq::new(i as nat, |j: int| value_line(*key, order@[j] as int, detector@)),
        decreases order@.len() - i,
    {
        let ghost earlier = texts_of(lines@);
        let v = order[i];
        let name = &key.values[v].0;
        lines.push(
            cli_game_line_item(
                name.as_str(),
                true,
                key.values[v].1.ignored,
                !detector.is_registry_value_duplicated(key.path.as_str(), name.as_str()).resolved(),
                key.values[v].1.change,
                true,
            ),
        );
        proof {
            assert(texts_of(lines@) =~= earlier.push(value_line(*key, order@[i as int] as int, detector@)));
            assert(texts_of(lines@) =~= head + Seq::new(
                (i + 1) as nat,
                |j: int| value_line(*key, order@[j] as int, detector@),
            ));
        }
        i += 1;
    }
    lines
}

/// The paths of a scan's files, by place.
pub open spec fn file_paths(scan_info: ScanInfo) -> Seq<Seq<char>> {
    Seq::new(scan_info.found_files@.len(), |i: int| scan_info.found_files@[i].path@)
}

/// The paths of a scan's registry keys, by place.
pub open spec fn registry_paths(scan_info: ScanInfo) -> Seq<Seq<char>> {
    Seq::new(scan_info.found_registry_keys@.len(), |k: int| scan_info.found_registry_keys@[k].path@)
}

/// The names of the values under a registry key, by place.
pub open spec fn value_names(key: ScannedRegistry) -> Seq<Seq<char>> {
    Seq::new(key.values@.len(), |v: int| key.values@[v].0@)
}

/// The lines of the files at the first `count` places of `order`.
pub open spec fn files_lines(
    scan_info: ScanInfo,
    info: BackupInfo,
    index: ClaimIndex,
    order: Seq<usize>,
    count: int,
) -> Seq<Seq<char>>
    decreases count,
{
    if count <= 0 {
        Seq::empty()
    } else {
        files_lines(scan_info, info, index, order, count - 1) + file_lines(
            scan_info.found_files@[order[count - 1] as int],
            info,
            index,
            scan_info.spec_restoring(),
        )
    }
}

/// The lines of the registry keys at the first `count` places of `order`,
/// each with its values in the order that `value_orders` holds for the
/// key's place.
pub open spec fn keys_lines(
    scan_info: ScanInfo,
    info: BackupInfo,
    index: ClaimIndex,
    order: Seq<usize>,
    value_orders: Seq<Seq<usize>>,
    count: int,
) -> Seq<Seq<char>>
    decreases count,
{
    if count <= 0 {
        Seq::empty()
    } else {
        keys_lines(scan_info, info, index, order, value_orders, count - 1) + registry_lines(
            scan_info.found_registry_keys@[order[count - 1] as int],
            info,
            index,
            value_orders[order[count - 1] as int],
        )
    }
}

/// The lines of an application: its header, its files in the order
/// `file_order` of their places, its registry keys in the order
/// `key_order` of theirs, each with its values in the order that
/// `value_orders` holds for the key's place, and an empty line.
pub open spec fn game_lines_in(
    name: Seq<char>,
    scan_info: ScanInfo,
    info: BackupInfo,
    decision: OperationStepDecision,
    index: ClaimIndex,
    file_order: Seq<usize>,
    key_order: Seq<usize>,
    value_orders: Seq<Seq<usize>>,
) -> Seq<Seq<char>> {
    seq![
        header_text(
            name,
            succeeded_size_sum(scan_info.found_files@, info),
            decision,
            game_contested(index, scan_info.game_name@),
            scan_info.spec_overall_change(),
        ),
    ] + files_lines(scan_info, info, index, file_order, file_order.len() as int) + keys_lines(
        scan_info,
        info,
        index,
        key_order,
        value_orders,
        key_order.len() as int,
    ) + seq![""@]
}

/// For each registry key of a scan, the places of its values in the
/// order of their names.
pub open spec fn value_rankings(scan_info: ScanInfo) -> Seq<Seq<usize>> {
    Seq::new(
        scan_info.found_registry_keys@.len(),
        |k: int| text_ranking(value_names(scan_info.found_registry_keys@[k])),
    )
}

/// The lines of an application: its header, its files in the order of
/// their paths, its registry keys in the order of their paths, each with
/// its values in the order of their names, and an empty line.
pub open spec fn game_lines(
    name: Seq<char>,
    scan_info: ScanInfo,
    info: BackupInfo,
    decision: OperationStepDecision,
    index: ClaimIndex,
) -> Seq<Seq<char>> {
    game_lines_in(
        name,
        scan_info,
        info,
        decision,
        index,
        text_ranking(file_paths(scan_info)),
        text_ranking(registry_paths(scan_info)),
        value_rankings(scan_info),
    )
}

/// The orders as mathematical values.
pub open spec fn orders_of(orders: Seq<Vec<usize>>) -> Seq<Seq<usize>> {
    Seq::new(orders.len(), |i: int| orders[i]@)
}

/// Whether every place in `order` is below `count`.
pub open spec fn within(order: Seq<usize>, count: nat) -> bool {
    forall|i: int| 0 <= i < order.len() ==> (#[trigger] order[i]) < count
}

/// Whether `value_orders` holds, for each registry key of the scan, an
/// order of places of the key's values.
pub open spec fn orders_fit(scan_info: ScanInfo, value_orders: Seq<Vec<usize>>) -> bool {
    &&& value_orders.len() == scan_info.found_registry_keys@.len()
    &&& forall|k: int|
        0 <= k < value_orders.len() ==> within(
            (#[trigger] value_orders[k])@,
            scan_info.found_registry_keys@[k].values@.len(),
        )
}

/// Appends `lines` to `parts`.
pub(crate) fn append_lines(parts: &mut Vec<String>, lines: Vec<String>)
    ensures
        texts_of(final(parts)@) == texts_of(old(parts)@) + texts_of(lines@),
{
    let ghost before = texts_of(parts@);
    let mut lines = lines;
    let ghost added = texts_of(lines@);
    parts.append(&mut lines);
    assert(texts_of(parts@) =~= before + added);
}

/// The paths of the files of `scan_info`, by place.
pub(crate) fn paths_of_files(scan_info: &ScanInfo) -> (paths: Vec<String>)
    ensures
        texts_of(paths@) == file_paths(*scan_info),
{
    let mut paths: Vec<String> = Vec::new();
    let mut i: usize = 0;
    while i < scan_info.found_files.len()
        invariant
            i <= scan_info.found_files@.len(),
            paths@.len() == i,
            forall|j: int| 0 <= j < i ==> (#[trigger] paths@[j])@ == scan_info.found_files@[j].path@,
        decreases scan_info.found_files@.len() - i,
    {
        paths.push(scan_info.found_files[i].path.clone());
        i += 1;
    }
    assert(texts_of(paths@) =~= file_paths(*scan_info));
    paths
}

/// The paths of the registry keys of `scan_info`, by place.
pub(crate) fn paths_of_registry(scan_info: &ScanInfo) -> (paths: Vec<String>)
    ensures
        texts_of(paths@) == registry_paths(*scan_info),
{
    let mut paths: Vec<String> = Vec::new();
    let mut i: usize = 0;
    while i < scan_info.found_registry_keys.len()
        invariant
            i <= scan_info.found_registry_keys@.len(),
            paths@.len() == i,
            forall|j: int| 0 <= j < i ==> (#[trigger] paths@[j])@ == scan_info.found_registry_keys@[j].path@,
        decreases scan_info.found_registry_keys@.len() - i,
    {
        paths.push(scan_info.found_registry_keys[i].path.clone());
        i += 1;
    }
    assert(texts_of(paths@) =~= registry_paths(*scan_info));
    paths
}

/// The names of the values under `key`, by place.
pub(crate) fn names_of_values(key: &ScannedRegistry) -> (found: Vec<String>)
    ensures
        texts_of(found@) == value_names(*key),
{
    let mut found: Vec<String> = Vec::new();
    let mut i: usize = 0;
    while i < key.values.len()
        invariant
            i <= key.values@.len(),
            found@.len() == i,
            forall|j: int| 0 <= j < i ==> (#[trigger] found@[j])@ == key.values@[j].0@,
        decreases key.values@.len() - i,
    {
        found.push(key.values[i].0.clone());
        i += 1;
    }
    assert(texts_of(found@) =~= value_names(*key));
    found
}

/// Writes the lines of an application, with its entries in the orders given.
pub fn cli_game_lines_in(
    name: &str,
    scan_info: &ScanInfo,
    info: &BackupInfo,
    decision: OperationStepDecision,
    detector: &DuplicateDetector,
    file_order: &Vec<usize>,
    key_order: &Vec<usize>,
    value_orders: &Vec<Vec<usize>>,
) -> (lines: Vec<String>)
    requires
        scan_info.total_size() <= u64::MAX,
        within(file_order@, scan_info.found_files@.len()),
        within(key_order@, scan_info.found_registry_keys@.len()),
        orders_fit(*scan_info, value_orders@),
    ensures
        texts_of(lines@) == game_lines_in(
            name@,
            *scan_info,
            *info,
            decision,
            detector@,
            file_order@,
            key_order@,
            orders_of(value_orders@),
        ),
{
    let restoring = scan_info.restoring();
    let mut lines: Vec<String> = Vec::new();
    lines.push(
        cli_game_header(
            name,
            scan_info.sum_bytes(Some(info)),
            decision,
            !detector.is_game_duplicated(scan_info.game_name.as_str()).resolved(),
            scan_info.overall_change(),
        ),
    );
    let ghost head = texts_of(lines@);
    let mut i: usize = 0;
    while i < file_order.len()
        invariant
            i <= file_order@.len(),
            restoring == scan_info.spec_restoring(),
            within(file_order@, scan_info.found_files@.len()),
            texts_of(lines@) == head + files_lines(*scan_info, *info, detector@, file_order@, i as int),
        decreases file_order@.len() - i,
    {
        let file = &scan_info.found_files[file_order[i]];
        append_lines(&mut lines, cli_file_lines(file, info, detector, restoring));
        proof {
            assert(texts_of(lines@) =~= head + files_lines(*scan_info, *info, detector@, file_order@, i + 1));
        }
        i += 1;
    }
    let ghost middle = texts_of(lines@);
    let mut k: usize = 0;
    while k < key_order.len()
        invariant
            k <= key_order@.len(),
            within(key_order@, scan_info.found_registry_keys@.len()),
            orders_fit(*scan_info, value_orders@),
            texts_of(lines@) == middle + keys_lines(
                *scan_info,
                *info,
                detector@,
                key_order@,
                orders_of(value_orders@),
                k as int,
            ),
        decreases key_order@.len() - k,
    {
        let place = key_order[k];
        let key = &scan_info.found_registry_keys[place];
        assert(within(value_orders@[place as int]@, key.values@.len()));
        append_lines(&mut lines, cli_registry_lines(key, info, detector, &value_orders[place]));
        proof {
            assert(texts_of(lines@) =~= middle + keys_lines(
                *scan_info,
                *info,
                detector@,
                key_order@,
                orders_of(value_orders@),
                k + 1,
            ));
        }
        k += 1;
    }
    let ghost body = texts_of(lines@);
    lines.push("".to_owned());
    proof {
        assert(texts_of(lines@) =~= body.push(""@));
    }
    lines
}

/// For each registry key of `scan_info`, the places of its values in the
/// order of their names.
pub fn rank_values(scan_info: &ScanInfo) -> (orders: Vec<Vec<usize>>)
    ensures
        orders_of(orders@) == value_rankings(*scan_info),
        orders_fit(*scan_info, orders@),
{
    let mut orders: Vec<Vec<usize>> = Vec::new();
    let mut k: usize = 0;
    while k < scan_info.found_registry_keys.len()
        invariant
            k <= scan_info.found_registry_keys@.len(),
            orders@.len() == k,
            forall|j: int|
                0 <= j < k ==> (#[trigger] orders@[j])@ == text_ranking(
                    value_names(scan_info.found_registry_keys@[j]),
                ) && within(orders@[j]@, scan_info.found_registry_keys@[j].values@.len()),
        decreases scan_info.found_registry_keys@.len() - k,
    {
        let order = rank_by_text(&names_of_values(&scan_info.found_registry_keys[k]));
        orders.push(order);
        k += 1;
    }
    assert(orders_of(orders@) =~= value_rankings(*scan_info));
    orders
}

/// Writes the lines of an application.
pub fn cli_game_lines(
    name: &str,
    scan_info: &ScanInfo,
    info: &BackupInfo,
    decision: OperationStepDecision,
    detector: &DuplicateDetector,
) -> (lines: Vec<String>)
    requires
        scan_info.total_size() <= u64::MAX,
    ensures
        texts_of(lines@) == game_lines(name@, *scan_info, *info, decision, detector@),
{
    let file_order = rank_by_text(&paths_of_files(scan_info));
    let key_order = rank_by_text(&paths_of_registry(scan_info));
    let value_orders = rank_values(scan_info);
    cli_game_lines_in(name, scan_info, info, decision, detector, &file_order, &key_order, &value_orders)
}

} // verus!
