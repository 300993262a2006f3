//! Reconciling what the archives of a directory tell with what a module
//! expects.

use crate::inspect::archive_outcome;
use crate::inspect::get_mod_id_and_type;
use crate::inspect::Detection;
use crate::inspect::DetectionView;
use crate::inspect::Fault;
use crate::inspect::InspectError;
use crate::registry::Mod;
use crate::registry::ModView;
use crate::registry::Module;
use crate::sorted_map::SortedMap;
use crate::tags::DefaultTags;
use crate::text::ends_with_extension;
use crate::text::has_extension;
use crate::text::same_text;
use vstd::prelude::*;

verus! {

/// A file of the scanned directory: its name and what it holds.
#[derive(Debug)]
pub struct ArchiveFile {
    pub name: String,
    pub bytes: Vec<u8>,
}

/// A candidate archive with what its inspection found.
#[derive(Debug)]
pub struct Finding {
    pub file_name: String,
    pub detection: Option<Detection>,
}

/// The mathematical content of a `Finding`.
pub struct FindingView {
    pub file_name: Seq<char>,
    pub detection: Option<DetectionView>,
}

impl View for Finding {
    type V = FindingView;

    open spec fn view(&self) -> FindingView {
        FindingView {
            file_name: self.file_name@,
            detection: match self.detection {
                Some(d) => Some(d@),
                None => None,
            },
        }
    }
}

/// The outcome for one identified archive.
#[derive(Debug)]
pub struct ClassificationRecord {
    /// The archive's file name, as it was handed in.
    pub file_name: String,
    /// What the archive's manifest tells.
    pub detection: Detection,
    /// The module's entry for the detected identifier, if it has one.
    pub matched: Option<Mod>,
    /// Whether the archive is exactly what the module expects.
    pub full_match: bool,
}

/// The mathematical content of a `ClassificationRecord`.
pub struct RecordView {
    pub file_name: Seq<char>,
    pub detection: DetectionView,
    pub matched: Option<ModView>,
    pub full_match: bool,
}

impl View for ClassificationRecord {
    type V = RecordView;

    open spec fn view(&self) -> RecordView {
        RecordView {
            file_name: self.file_name@,
            detection: self.detection@,
            matched: match self.matched {
                Some(entry) => Some(entry@),
                None => None,
            },
            full_match: self.full_match,
        }
    }
}

/// The counts of a scan.
#[derive(Clone, Copy, Debug, PartialEq, Eq, Structural)]
pub struct ScanSummary {
    /// The candidate archives that were found.
    pub candidates: usize,
    /// Those among them in which an identity was found.
    pub identified: usize,
    /// Those among them that are exactly what the module expects.
    pub full_matches: usize,
}

/// What a scan yields.
#[derive(Debug)]
pub struct ScanReport {
    /// One record for each identified archive, in the order of the scan.
    pub records: Vec<ClassificationRecord>,
    pub summary: ScanSummary,
    /// The detected identifier of each identified archive, by file name.
    pub jar_to_modid: SortedMap<String>,
}

/// The mathematical content of a `ScanReport`.
pub struct ReportView {
    pub records: Seq<RecordView>,
    pub candidates: nat,
    pub identified: nat,
    pub full_matches: nat,
    pub jar_to_modid: Map<Seq<char>, Seq<char>>,
}

impl View for ScanReport {
    type V = ReportView;

    open spec fn view(&self) -> ReportView {
        ReportView {
            records: self.records@.map_values(|r: ClassificationRecord| r@),
            candidates: self.summary.candidates as nat,
            identified: self.summary.identified as nat,
            full_matches: self.summary.full_matches as nat,
            jar_to_modid: self.jar_to_modid@.map_values(|id: String| id@),
        }
    }
}

/// A scan that was given up, with the archive that caused it.
#[derive(Debug)]
pub struct ScanError {
    pub file_name: String,
    pub cause: InspectError,
}

/// A file name whose extension is exactly `jar`: it ends in `.jar` and has
/// something before that.
pub open spec fn is_jar_name(name: Seq<char>) -> bool {
    has_extension(name, "jar"@)
}

/// An archive is exactly what the module expects: the module lists the
/// detected identifier, a version was detected, and version and loader family
/// are those of the module's entry. The tag plays no part.
pub open spec fn full_match_of(detection: DetectionView, matched: Option<ModView>) -> bool {
    &&& matched is Some
    &&& detection.version is Some
    &&& detection.version->0 == matched->0.mod_version
    &&& detection.mod_type == matched->0.mod_type
}

/// The module's entry for `mod_id`, if it has one.
pub open spec fn entry_of(mods: Map<Seq<char>, ModView>, mod_id: Seq<char>) -> Option<ModView> {
    if mods.contains_key(mod_id) {
        Some(mods[mod_id])
    } else {
        None
    }
}

/// The record of an identified archive.
pub open spec fn record_of(
    file_name: Seq<char>,
    detection: DetectionView,
    mods: Map<Seq<char>, ModView>,
) -> RecordView {
    RecordView {
        file_name,
        detection,
        matched: entry_of(mods, detection.mod_id),
        full_match: full_match_of(detection, entry_of(mods, detection.mod_id)),
    }
}

/// The records of a scan: one for each finding with an identity, in order.
pub open spec fn records_of(findings: Seq<FindingView>, mods: Map<Seq<char>, ModView>) -> Seq<
    RecordView,
>
    decreases findings.len(),
{
    if findings.len() == 0 {
        Seq::empty()
    } else {
        let earlier = records_of(findings.drop_last(), mods);
        match findings.last().detection {
            Some(d) => earlier.push(record_of(findings.last().file_name, d, mods)),
            None => earlier,
        }
    }
}

/// The detected identifier of each finding with an identity, by file name.
pub open spec fn mapping_of(findings: Seq<FindingView>) -> Map<Seq<char>, Seq<char>>
    decreases findings.len(),
{
    if findings.len() == 0 {
        Map::empty()
    } else {
        let earlier = mapping_of(findings.drop_last());
        match findings.last().detection {
            Some(d) => earlier.insert(findings.last().file_name, d.mod_id),
            None => earlier,
        }
    }
}

/// The number of full matches among `records`.
pub open spec fn full_matches_in(records: Seq<RecordView>) -> nat
    decreases records.len(),
{
    if records.len() == 0 {
        0
    } else {
        full_matches_in(records.drop_last()) + if records.last().full_match {
            1nat
        } else {
            0nat
        }
    }
}

/// What the findings of a scan amount to.
pub open spec fn report_of(findings: Seq<FindingView>, mods: Map<Seq<char>, ModView>) -> ReportView {
    ReportView {
        records: records_of(findings, mods),
        candidates: findings.len(),
        identified: records_of(findings, mods).len(),
        full_matches: full_matches_in(records_of(findings, mods)),
        jar_to_modid: mapping_of(findings),
    }
}

/// A candidate in which no identity was found counts as a candidate and
/// leaves no other trace: no record, no entry in the mapping, and the counts
/// of identified archives and of full matches stay as they are.
pub proof fn lemma_unidentified_leaves_no_trace(
    findings: Seq<FindingView>,
    file_name: Seq<char>,
    mods: Map<Seq<char>, ModView>,
)
    ensures
        ({
            let finding = FindingView { file_name, detection: None };
            let before = report_of(findings, mods);
            let after = report_of(findings.push(finding), mods);
            &&& after.records == before.records
            &&& after.jar_to_modid == before.jar_to_modid
            &&& after.identified == before.identified
            &&& after.full_matches == before.full_matches
            &&& after.candidates == before.candidates + 1
        }),
{
    let finding = FindingView { file_name, detection: None };
    assert(findings.push(finding).drop_last() =~= findings);
}

/// An archive whose identifier the module does not list is identified: it
/// has a record and an entry in the mapping. Its record names no entry of
/// the module and is no full match.
pub proof fn lemma_unlisted_identifier(
    findings: Seq<FindingView>,
    file_name: Seq<char>,
    detection: DetectionView,
    mods: Map<Seq<char>, ModView>,
)
    requires
        !mods.contains_key(detection.mod_id),
    ensures
        ({
            let finding = FindingView { file_name, detection: Some(detection) };
            let before = report_of(findings, mods);
            let after = report_of(findings.push(finding), mods);
            &&& after.records == before.records.push(record_of(file_name, detection, mods))
            &&& after.records.last().matched is None
            &&& !after.records.last().full_match
            &&& after.jar_to_modid == before.jar_to_modid.insert(file_name, detection.mod_id)
            &&& after.identified == before.identified + 1
            &&& after.full_matches == before.full_matches
        }),
{
    let finding = FindingView { file_name, detection: Some(detection) };
    assert(findings.push(finding).drop_last() =~= findings);
    let records = records_of(findings.push(finding), mods);
    assert(records.drop_last() =~= records_of(findings, mods));
}

/// Every record of a report keeps to the rule of the full match: it names
/// the module's entry for the detected identifier, and it is a full match
/// exactly if that entry has the detected version and loader family.
pub proof fn lemma_records_keep_the_rule(
    findings: Seq<FindingView>,
    mods: Map<Seq<char>, ModView>,
    at: int,
)
    requires
        0 <= at < records_of(findings, mods).len(),
    ensures
        ({
            let record = records_of(findings, mods)[at];
            &&& record.matched == entry_of(mods, record.detection.mod_id)
            &&& record.full_match == full_match_of(record.detection, record.matched)
        }),
    decreases findings.len(),
{
    let earlier = records_of(findings.drop_last(), mods);
    if at < earlier.len() {
        lemma_records_keep_the_rule(findings.drop_last(), mods, at);
    }
}

/// The tag of the module's entry plays no part in a full match.
pub proof fn lemma_tag_plays_no_part(detection: DetectionView, entry: ModView, tag: DefaultTags)
    ensures
        full_match_of(detection, Some(entry)) == full_match_of(
            detection,
            Some(ModView { mod_tag: tag, ..entry }),
        ),
{
}

/// Of the candidates of a scan some are identified, and of those some are
/// full matches.
pub proof fn lemma_counts_in_order(findings: Seq<FindingView>, mods: Map<Seq<char>, ModView>)
    ensures
        report_of(findings, mods).full_matches <= report_of(findings, mods).identified,
        report_of(findings, mods).identified <= report_of(findings, mods).candidates,
    decreases findings.len(),
{
    if findings.len() > 0 {
        lemma_counts_in_order(findings.drop_last(), mods);
        let records = records_of(findings, mods);
        if findings.last().detection is Some {
            assert(records.drop_last() =~= records_of(findings.drop_last(), mods));
        }
    }
}

/// Whether a file name has the extension `jar`. Case matters.
pub fn has_jar_extension(name: &str) -> (jar: bool)
    ensures
        jar == is_jar_name(name@),
{
    ends_with_extension(name, "jar")
}

/// The file names among `names` that have the extension `jar`, in order.
pub fn jar_files(names: &Vec<String>) -> (found: Vec<String>)
    ensures
        found@.map_values(|name: String| name@) == names@.map_values(|name: String| name@).filter(
            |name: Seq<char>| is_jar_name(name),
        ),
{
    let ghost all = names@.map_values(|name: String| name@);
    let ghost wanted = |name: Seq<char>| is_jar_name(name);
    let mut found: Vec<String> = Vec::new();
    let mut at: usize = 0;
    assert(all.take(0).filter(wanted) =~= Seq::<Seq<char>>::empty()) by {
        reveal(Seq::filter);
    }
    while at < names.len()
        invariant
            at <= names.len(),
            all == names@.map_values(|name: String| name@),
            wanted == |name: Seq<char>| is_jar_name(name),
            found@.map_values(|name: String| name@) == all.take(at as int).filter(wanted),
        decreases names.len() - at,
    {
        proof {
            reveal(Seq::filter);
            assert(all.take(at + 1).drop_last() =~= all.take(at as int));
            assert(all.take(at + 1).last() == names@[at as int]@);
        }
        if has_jar_extension(names[at].as_str()) {
            let ghost before = found@;
            let name = names[at].clone();
            found.push(name);
            assert(found@.map_values(|name: String| name@) =~= before.map_values(
                |name: String| name@,
            ).push(name@));
        }
        at += 1;
    }
    assert(all.take(at as int) =~= all);
    found
}

/// Holds what an archive tells against the module.
pub fn classify(file_name: &str, detection: &Detection, module: &Module) -> (record:
    ClassificationRecord)
    requires
        module.wf(),
    ensures
        record@ == record_of(file_name@, detection@, module@.mods),
{
    let matched = match module.mods.get(detection.mod_id.as_str()) {
        Some(entry) => Some(entry.clone()),
        None => None,
    };
    let full_match = match &matched {
        Some(entry) => match &detection.version {
            Some(version) => same_text(version.as_str(), entry.mod_version.as_str())
                && detection.mod_type == entry.mod_type,
            None => false,
        },
        None => false,
    };
    ClassificationRecord {
        file_name: file_name.to_owned(),
        detection: detection.clone(),
        matched,
        full_match,
    }
}

/// What the findings of a sequence of findings stand for.
pub open spec fn findings_view(findings: Seq<Finding>) -> Seq<FindingView> {
    findings.map_values(|f: Finding| f@)
}

/// Draws up the report of a scan from what the inspection of each candidate
/// archive found. A candidate without an identity counts as a candidate and
/// leaves no other trace.
pub fn reconcile(findings: &Vec<Finding>, module: &Module) -> (report: ScanReport)
    requires
        module.wf(),
    ensures
        report.jar_to_modid.wf(),
        report@ == report_of(findings_view(findings@), module@.mods),
{
    let ghost all = findings_view(findings@);
    let ghost mods = module@.mods;
    let mut records: Vec<ClassificationRecord> = Vec::new();
    let mut jar_to_modid: SortedMap<String> = SortedMap::new();
    let mut full_matches: usize = 0;
    let mut at: usize = 0;
    assert(jar_to_modid@.map_values(|id: String| id@) =~= mapping_of(all.take(0)));
    while at < findings.len()
        invariant
            at <= findings.len(),
            module.wf(),
            all == findings_view(findings@),
            mods == module@.mods,
            jar_to_modid.wf(),
            records@.map_values(|r: ClassificationRecord| r@) == records_of(all.take(at as int), mods),
            records@.len() <= at,
            full_matches == full_matches_in(records_of(all.take(at as int), mods)),
            full_matches <= at,
            jar_to_modid@.map_values(|id: String| id@) == mapping_of(all.take(at as int)),
        decreases findings.len() - at,
    {
        proof {
            assert(all.take(at + 1).drop_last() =~= all.take(at as int));
            assert(all.take(at + 1).last() == findings@[at as int]@);
        }
        let finding = &findings[at];
        match &finding.detection {
            Some(detection) => {
                let record = classify(finding.file_name.as_str(), detection, module);
                let ghost before = records@;
                let ghost earlier = jar_to_modid@;
                if record.full_match {
                    full_matches += 1;
                }
                records.push(record);
                jar_to_modid.insert(finding.file_name.clone(), detection.mod_id.clone());
                proof {
                    assert(records@.map_values(|r: ClassificationRecord| r@) =~= before.map_values(
                        |r: ClassificationRecord| r@,
                    ).push(record@));
                    assert(records_of(all.take(at + 1), mods).drop_last() =~= records_of(
                        all.take(at as int),
                        mods,
                    ));
                    assert(jar_to_modid@.map_values(|id: String| id@) =~= earlier.map_values(
                        |id: String| id@,
                    ).insert(finding.file_name@, detection.mod_id@));
                }
            },
            None => {},
        }
        at += 1;
    }
    assert(all.take(at as int) =~= all);
    let summary = ScanSummary { candidates: findings.len(), identified: records.len(), full_matches };
    ScanReport { records, summary, jar_to_modid }
}

/// The findings for the candidates among the first `upto` files, or, where a
/// candidate cannot be inspected, the position and the fault of the first
/// such file.
pub open spec fn findings_of(files: Seq<ArchiveFile>, upto: int) -> Result<
    Seq<FindingView>,
    (int, Fault),
>
    decreases upto,
{
    if upto <= 0 {
        Ok(Seq::empty())
    } else {
        let file = files[upto - 1];
        match findings_of(files, upto - 1) {
            Err(stop) => Err(stop),
            Ok(earlier) => if !is_jar_name(file.name@) {
                Ok(earlier)
            } else {
                match archive_outcome(file.bytes@) {
                    Ok(detection) => Ok(earlier.push(FindingView { file_name: file.name@, detection })),
                    Err(fault) => Err((upto - 1, fault)),
                }
            },
        }
    }
}

/// Once a candidate could not be inspected, the files after it change
/// nothing.
pub proof fn lemma_scan_stops(files: Seq<ArchiveFile>, at: int, upto: int)
    requires
        findings_of(files, at) is Err,
        at <= upto,
    ensures
        findings_of(files, upto) == findings_of(files, at),
    decreases upto - at,
{
    if at < upto {
        lemma_scan_stops(files, at, upto - 1);
    }
}

/// Scans the files of a directory: inspects those with the extension `jar`
/// in the given order and reconciles what they tell with the module. The
/// first candidate that cannot be inspected ends the scan with its error, and
/// nothing of what was found before it is handed out.
pub fn scan(files: &Vec<ArchiveFile>, module: &Module) -> (outcome: Result<ScanReport, ScanError>)
    requires
        module.wf(),
    ensures
        (match findings_of(files@, files@.len() as int) {
            Ok(findings) => outcome matches Ok(report) && report.jar_to_modid.wf() && report@
                == report_of(findings, module@.mods),
            Err((at, fault)) => outcome matches Err(e) && e.file_name@ == files@[at].name@
                && e.cause.fault() == fault,
        }),
{
    let mut findings: Vec<Finding> = Vec::new();
    let mut at: usize = 0;
    assert(findings_view(findings@) =~= Seq::<FindingView>::empty());
    while at < files.len()
        invariant
            at <= files.len(),
            findings_of(files@, at as int) == Ok::<Seq<FindingView>, (int, Fault)>(
                findings_view(findings@),
            ),
        decreases files.len() - at,
    {
        let file = &files[at];
        if has_jar_extension(file.name.as_str()) {
            match get_mod_id_and_type(file.bytes.as_slice()) {
                Ok(detection) => {
                    let ghost before = findings@;
                    let finding = Finding { file_name: file.name.clone(), detection };
                    findings.push(finding);
                    assert(findings_view(findings@) =~= findings_view(before).push(finding@));
                },
                Err(cause) => {
                    proof {
                        lemma_scan_stops(files@, at + 1, files@.len() as int);
                    }
                    return Err(ScanError { file_name: file.name.clone(), cause });
                },
            }
        }
        at += 1;
    }
    Ok(reconcile(&findings, module))
}

} // verus!
