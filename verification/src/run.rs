//! The run coordinator: per-file planning (eligibility, output path, label)
//! and the accumulating run state (registry, manifest records, processed
//! count). Workers decode, transform and write concurrently; every
//! registry/manifest mutation funnels through `record_success` on the single
//! coordinator, so the one atomic region the pipeline needs is this type's
//! own method.

use vstd::prelude::*;
use crate::bytes::dec_digits;
use crate::bytes::fmt_u64;
use crate::paths::{
    eligible_spec,
    eligible,
    strip_root_spec,
    strip_root,
    join_spec,
    join_path,
    with_png_ext_spec,
    with_png_ext,
    parent_spec,
    parent_path,
    label_of_spec,
    label_of,
};
use crate::registry::{
    LabelRegistry,
    RegModel,
    reg_lookup,
    assign_step,
    lemma_lookup_contains,
};

verus! {

/// One manifest record: a successfully processed output file, its label,
/// the label's class index, and the data-set name (the output root's own
/// name).
pub struct ManifestRecord {
    /// The class index assigned to this record's label.
    pub class_index: usize,
    /// The output file's path.
    pub filepath: Vec<u8>,
    /// The label: the input file's parent directory name.
    pub label: Vec<u8>,
    /// The data-set name, constant for a whole run.
    pub dataset: Vec<u8>,
}

/// The model of a record.
pub type RecModel = (usize, Seq<u8>, Seq<u8>, Seq<u8>);

impl ManifestRecord {
    /// The record's model: its four fields as mathematical values.
    pub open spec fn model(self) -> RecModel {
        (self.class_index, self.filepath@, self.label@, self.dataset@)
    }
}

/// The plan for one eligible file: where its transformed copy goes and
/// which label it carries.
pub struct FilePlan {
    /// The output path for the transformed copy.
    pub output_path: Vec<u8>,
    /// The label derived from the input path.
    pub label: Vec<u8>,
}

/// The suffix a sequentially numbered output file gets: the counter's
/// decimal numeral followed by `.png`.
pub open spec fn numbered_name(count: nat) -> Seq<u8> {
    dec_digits(count) + seq![46u8, 112u8, 110u8, 103u8]
}

/// What planning a file yields. An ineligible file, or one not under the
/// input root, yields nothing. Otherwise the output path mirrors the
/// input's relative path under the output root; its extension becomes `png`
/// unless formats are preserved; its file name becomes the processed-count
/// numeral unless file names are preserved. The label is the input's parent
/// directory name.
pub open spec fn plan_spec(
    path: Seq<u8>,
    input_root: Seq<u8>,
    output_root: Seq<u8>,
    preserve_formats: bool,
    preserve_filenames: bool,
    count: nat,
) -> Option<(Seq<u8>, Seq<u8>)> {
    if !eligible_spec(path) {
        None
    } else {
        match strip_root_spec(path, input_root) {
            None => None,
            Some(rel) => {
                let joined = join_spec(output_root, rel);
                let with_fmt = if preserve_formats {
                    joined
                } else {
                    with_png_ext_spec(joined)
                };
                let out = if preserve_filenames {
                    with_fmt
                } else {
                    join_spec(parent_spec(with_fmt), numbered_name(count))
                };
                Some((out, label_of_spec(path)))
            },
        }
    }
}

/// Plan one file: decide eligibility and compute its output path and label.
/// `count` is the processed-file count at planning time, used for
/// sequential file names.
pub fn plan_file(
    path: &[u8],
    input_root: &[u8],
    output_root: &[u8],
    preserve_formats: bool,
    preserve_filenames: bool,
    count: u64,
) -> (r: Option<FilePlan>)
    ensures
        match r {
            Some(plan) => plan_spec(
                path@,
                input_root@,
                output_root@,
                preserve_formats,
                preserve_filenames,
                count as nat,
            ) == Some((plan.output_path@, plan.label@)),
            None => plan_spec(
                path@,
                input_root@,
                output_root@,
                preserve_formats,
                preserve_filenames,
                count as nat,
            ) is None,
        },
{
    if !eligible(path) {
        return None;
    }
    let rel = match strip_root(path, input_root) {
        Some(rel) => rel,
        None => {
            return None;
        },
    };
    let joined = join_path(output_root, rel.as_slice());
    let with_fmt = if preserve_formats {
        joined
    } else {
        with_png_ext(joined.as_slice())
    };
    let out = if preserve_filenames {
        with_fmt
    } else {
        let par = parent_path(with_fmt.as_slice());
        let mut name = fmt_u64(count);
        name.push(46);
        name.push(112);
        name.push(110);
        name.push(103);
        proof {
            assert(name@ =~= numbered_name(count as nat));
        }
        join_path(par.as_slice(), name.as_slice())
    };
    let label = label_of(path);
    Some(FilePlan { output_path: out, label })
}

/// The (label, index) pairs a manifest's records seed a registry with.
pub open spec fn seed_pairs_of(records: Seq<ManifestRecord>) -> Seq<(Seq<u8>, usize)> {
    Seq::new(records.len(), |i: int| (records[i].label@, records[i].class_index))
}

/// Build the label registry a prior manifest seeds: every record's label
/// with its recorded class index, first occurrence winning.
pub fn registry_from_records(records: &Vec<ManifestRecord>) -> (r: LabelRegistry)
    ensures
        r.model() == crate::registry::seed_all(RegModel::empty(), seed_pairs_of(records@)),
{
    let ghost ps = seed_pairs_of(records@);
    let mut r = LabelRegistry::new();
    let mut i: usize = 0;
    while i < records.len()
        invariant
            0 <= i <= records@.len(),
            ps == seed_pairs_of(records@),
            r.model() == crate::registry::seed_all(RegModel::empty(), ps.take(i as int)),
        decreases records@.len() - i,
    {
        proof {
            crate::registry::lemma_seed_all_snoc(RegModel::empty(), ps.take(i as int), ps[i as int]);
            assert(ps.take(i as int).push(ps[i as int]) =~= ps.take(i as int + 1));
        }
        r.seed_insert(records[i].label.as_slice(), records[i].class_index);
        i += 1;
    }
    proof {
        assert(ps.take(ps.len() as int) =~= ps);
    }
    r
}

/// A per-file outcome: `Some` carries a successful file's output path,
/// label and data-set name; `None` is a file whose decode or write failed.
pub type FileEvent = Option<(Seq<u8>, Seq<u8>, Seq<u8>)>;

/// The model of the whole run state: registry model, record models in
/// arrival order, processed count.
pub type RunModel = (RegModel, Seq<RecModel>, nat);

/// The index `get_or_assign` yields for a label: its current index if
/// present, else the registry's size.
pub open spec fn assign_index(m: RegModel, l: Seq<u8>) -> usize {
    match reg_lookup(m, l) {
        Some(i) => i,
        None => m.len() as usize,
    }
}

/// How one per-file outcome changes the run state: a failure changes
/// nothing; a success registers the label, appends exactly one record with
/// the file's own path, label, data-set name and the label's index, and
/// counts the file.
pub open spec fn run_step(st: RunModel, ev: FileEvent) -> RunModel {
    match ev {
        None => st,
        Some((path, label, dataset)) => (
            assign_step(st.0, label),
            st.1.push((assign_index(st.0, label), path, label, dataset)),
            st.2 + 1,
        ),
    }
}

/// The run state after a whole sequence of per-file outcomes.
pub open spec fn run_all(st: RunModel, evs: Seq<FileEvent>) -> RunModel
    decreases evs.len(),
{
    if evs.len() == 0 {
        st
    } else {
        run_all(run_step(st, evs[0]), evs.drop_first())
    }
}

/// The number of successes in a sequence of per-file outcomes.
pub open spec fn count_success(evs: Seq<FileEvent>) -> nat
    decreases evs.len(),
{
    if evs.len() == 0 {
        0
    } else {
        (if evs[0] is Some {
            1nat
        } else {
            0nat
        }) + count_success(evs.drop_first())
    }
}

/// Completeness: over any sequence of per-file outcomes, every success
/// appends exactly one manifest record and bumps the processed count by
/// one, and every failure leaves both untouched — so the run ends with
/// exactly one record per successfully processed file, and the count equals
/// the record total.
pub proof fn lemma_completeness(st: RunModel, evs: Seq<FileEvent>)
    ensures
        run_all(st, evs).1.len() == st.1.len() + count_success(evs),
        run_all(st, evs).2 == st.2 + count_success(evs),
        run_all(st, evs).1.take(st.1.len() as int) == st.1,
    decreases evs.len(),
{
    if evs.len() == 0 {
        assert(run_all(st, evs).1.take(st.1.len() as int) =~= st.1);
    } else {
        let st1 = run_step(st, evs[0]);
        lemma_completeness(st1, evs.drop_first());
        assert(st1.1.take(st.1.len() as int) =~= st.1);
        assert(run_all(st1, evs.drop_first()).1.take(st.1.len() as int) =~= run_all(
            st1,
            evs.drop_first(),
        ).1.take(st1.1.len() as int).take(st.1.len() as int));
    }
}

/// The accumulated state of one run. Created empty (but for the seeded
/// registry), grown only through `record_success`, frozen when all workers
/// are done and handed to the manifest writer.
pub struct RunState {
    /// The label registry, possibly seeded from a prior manifest.
    pub registry: LabelRegistry,
    /// The manifest records accumulated so far, in arrival order.
    pub records: Vec<ManifestRecord>,
    /// How many files have been successfully processed so far.
    pub processed: usize,
}

impl RunState {
    /// The record models in arrival order.
    pub open spec fn records_model(self) -> Seq<RecModel> {
        Seq::new(self.records@.len(), |i: int| self.records@[i].model())
    }

    /// The run state's model.
    pub open spec fn model(self) -> RunModel {
        (self.registry.model(), self.records_model(), self.processed as nat)
    }

    /// Start a run with a (possibly seeded) registry, no records and a
    /// zero count.
    pub fn new(registry: LabelRegistry) -> (r: RunState)
        ensures
            r.model() == (registry.model(), Seq::<RecModel>::empty(), 0nat),
    {
        let r = RunState { registry, records: Vec::new(), processed: 0 };
        proof {
            assert(r.records_model() =~= Seq::<RecModel>::empty());
        }
        r
    }

    /// Record one successfully written file: resolve the label's class
    /// index through the registry's atomic get-or-assign, append exactly
    /// one record carrying the file's own path, label, data-set name and
    /// that index, and count the file. This is the whole pipeline's only
    /// mutation of shared state.
    pub fn record_success(
        &mut self,
        output_path: Vec<u8>,
        label: &[u8],
        dataset: Vec<u8>,
    ) -> (idx: usize)
        requires
            old(self).registry.model().len() < usize::MAX,
            old(self).processed < usize::MAX,
        ensures
            final(self).model() == run_step(
                old(self).model(),
                Some((output_path@, label@, dataset@)),
            ),
            idx == assign_index(old(self).registry.model(), label@),
            reg_lookup(final(self).registry.model(), label@) == Some(idx),
            old(self).registry.wf() ==> final(self).registry.wf(),
    {
        let ghost m0 = self.registry.model();
        proof {
            lemma_lookup_contains(m0, label@);
        }
        let idx = self.registry.get_or_assign(label);
        let mut owned_label: Vec<u8> = Vec::new();
        crate::bytes::append_bytes(&mut owned_label, label);
        proof {
            assert(owned_label@ =~= label@);
        }
        let rec = ManifestRecord { class_index: idx, filepath: output_path, label: owned_label, dataset };
        self.records.push(rec);
        self.processed = self.processed + 1;
        proof {
            assert(self.records_model() =~= old(self).records_model().push(
                (idx, output_path@, label@, dataset@),
            ));
        }
        idx
    }
}

} // verus!
