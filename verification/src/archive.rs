//! Building an archive from entries and planning a safe extraction of one.
//!
//! `build_archive` turns well-formed entries into archive bytes;
//! `extraction_plan` turns archive bytes into the list of filesystem actions
//! an extractor must take, skipping every entry whose name is unsafe.
//! `lemma_round_trip` states that the two compose: what is archived is
//! exactly what the plan restores.

use vstd::prelude::*;

use crate::TransferError;
use crate::entry::ArchiveEntry;
use crate::entry::entry_name_is_safe;
use crate::entry::entry_name_safe;
use crate::entry::lemma_safe_name_trailing_slash;
use crate::zip_io::ZipBuilder;
use crate::zip_io::ZipReader;
use crate::zip_io::builder_entries;
use crate::zip_io::builder_names;
use crate::zip_io::reader_entries;
use crate::zip_io::zip_entries;
use crate::zip_io::zip_well_formed;

verus! {

/// One step of an extraction: create a directory, or write one file.
/// Names are archive entry names, to be joined under the destination
/// directory; a `MakeDir` name keeps its trailing slash.
#[derive(Debug)]
pub enum PlanAction {
    MakeDir { name: String },
    WriteFile { name: String, data: Vec<u8> },
}

/// The archive entries whose names are safe, in archive order.
pub open spec fn safe_entries(es: Seq<(Seq<char>, Seq<u8>)>) -> Seq<(Seq<char>, Seq<u8>)>
    decreases es.len(),
{
    if es.len() == 0 {
        Seq::empty()
    } else {
        let prefix = safe_entries(es.drop_last());
        if entry_name_safe(es.last().0) {
            prefix.push(es.last())
        } else {
            prefix
        }
    }
}

/// The action that restores one safe archive entry: a directory entry (name
/// ending in a slash) becomes `MakeDir` under the same name, any other entry
/// becomes `WriteFile` with the same name and bytes.
pub open spec fn action_for(e: (Seq<char>, Seq<u8>), a: PlanAction) -> bool {
    match a {
        PlanAction::MakeDir { name } => {
            &&& name@ == e.0
            &&& e.0.len() > 0
            &&& e.0[e.0.len() - 1] == '/'
        },
        PlanAction::WriteFile { name, data } => {
            &&& name@ == e.0
            &&& data@ == e.1
            &&& !(e.0.len() > 0 && e.0[e.0.len() - 1] == '/')
        },
    }
}

/// The plan restores exactly the safe entries, in order.
pub open spec fn plan_matches(plan: Seq<PlanAction>, es: Seq<(Seq<char>, Seq<u8>)>) -> bool {
    &&& plan.len() == safe_entries(es).len()
    &&& forall|i: int|
        0 <= i < plan.len() ==> action_for(safe_entries(es)[i], #[trigger] plan[i])
}

/// No two entries would be stored under the same archive name.
pub open spec fn distinct_model_names(entries: Seq<ArchiveEntry>) -> bool {
    forall|i: int, j: int|
        0 <= i < j < entries.len() ==> (#[trigger] entries[i].zip_model()).0 != (
        #[trigger] entries[j].zip_model()).0
}

/// Encodes the entries into one compressed archive byte string: every entry
/// in order, directories under their name with a trailing slash. Succeeds
/// exactly when no two entries collide on their stored name — the one thing
/// the archive writer refuses.
pub fn build_archive(entries: &Vec<ArchiveEntry>) -> (r: Result<Vec<u8>, TransferError>)
    requires
        forall|i: int| 0 <= i < entries@.len() ==> (#[trigger] entries@[i]).wf(),
    ensures
        (r is Ok) == distinct_model_names(entries@),
        r matches Ok(bytes) ==> zip_well_formed(bytes@) && zip_entries(bytes@)
            =~= entries@.map_values(|e: ArchiveEntry| e.zip_model()),
        r matches Err(e) ==> e is ArchiveWrite,
{
    let mut builder = ZipBuilder::new();
    let mut i: usize = 0;
    while i < entries.len()
        invariant
            0 <= i <= entries@.len(),
            forall|k: int| 0 <= k < entries@.len() ==> (#[trigger] entries@[k]).wf(),
            builder_entries(builder) =~= entries@.take(i as int).map_values(
                |e: ArchiveEntry| e.zip_model(),
            ),
            distinct_model_names(entries@.take(i as int)),
        decreases entries@.len() - i,
    {
        let ghost prev = builder_entries(builder);
        let ghost names = builder_names(builder);
        let ghost model = entries@[i as int].zip_model();
        proof {
            assert(names.len() == i);
            assert forall|k: int| 0 <= k < i implies names[k] == (
            #[trigger] entries@[k].zip_model()).0 by {
                assert(prev[k] == entries@.take(i as int).map_values(
                    |e: ArchiveEntry| e.zip_model(),
                )[k]);
            }
        }
        let e = &entries[i];
        let step = match &e.data {
            Some(d) => builder.add_file(e.name.as_str(), d),
            None => builder.add_directory(e.name.as_str()),
        };
        match step {
            Ok(()) => {},
            Err(err) => {
                proof {
                    assert(names.contains(model.0));
                    let k = choose|k: int| 0 <= k < names.len() && names[k] == model.0;
                    assert(entries@[k].zip_model().0 == model.0);
                    assert(!distinct_model_names(entries@));
                }
                return Err(err);
            },
        }
        proof {
            assert(!names.contains(model.0));
            assert(entries@.take(i + 1) =~= entries@.take(i as int).push(entries@[i as int]));
            assert(builder_entries(builder) =~= entries@.take(i + 1).map_values(
                |e: ArchiveEntry| e.zip_model(),
            ));
            assert forall|a: int, b: int| 0 <= a < b < i + 1 implies (
            #[trigger] entries@.take(i + 1)[a].zip_model()).0 != (#[trigger] entries@.take(
                i + 1,
            )[b].zip_model()).0 by {
                if b == i {
                    assert(names[a] == entries@[a].zip_model().0);
                    if entries@[a].zip_model().0 == model.0 {
                        assert(names.contains(model.0));
                    }
                }
            }
            assert(distinct_model_names(entries@.take(i + 1)));
        }
        i = i + 1;
    }
    proof {
        assert(entries@.take(entries@.len() as int) =~= entries@);
    }
    builder.finish()
}

/// Reads archive bytes and plans their extraction: safe entries in archive
/// order, unsafe entry names skipped without failing. Opening bytes that are
/// not an archive, or an entry that does not decompress, is an error; on a
/// well-formed archive the plan always succeeds.
pub fn extraction_plan(bytes: Vec<u8>) -> (r: Result<Vec<PlanAction>, TransferError>)
    ensures
        zip_well_formed(bytes@) ==> r is Ok,
        r matches Ok(plan) ==> plan_matches(plan@, zip_entries(bytes@)),
        r matches Err(e) ==> e is ArchiveRead,
{
    let ghost all = zip_entries(bytes@);
    let mut reader = match ZipReader::new(bytes) {
        Ok(rd) => rd,
        Err(err) => {
            return Err(err);
        },
    };
    let n = reader.len();
    let mut plan: Vec<PlanAction> = Vec::new();
    let mut i: usize = 0;
    while i < n
        invariant
            0 <= i <= n,
            n == reader_entries(reader).len(),
            reader_entries(reader) == all,
            zip_well_formed(bytes@) ==> crate::zip_io::reader_sound(reader),
            plan_matches(plan@, all.take(i as int)),
        decreases n - i,
    {
        let step = reader.entry_at(i);
        let ghost prev_plan = plan@;
        proof {
            assert(all.take(i + 1).drop_last() =~= all.take(i as int));
            assert(all.take(i + 1).last() == all[i as int]);
        }
        match step {
            Ok((name, data)) => {
                if entry_name_is_safe(name.as_str()) {
                    let len = name.unicode_len();
                    if name.get_char(len - 1) == '/' {
                        plan.push(PlanAction::MakeDir { name });
                    } else {
                        plan.push(PlanAction::WriteFile { name, data });
                    }
                    proof {
                        assert(safe_entries(all.take(i + 1)) =~= safe_entries(
                            all.take(i as int),
                        ).push(all[i as int]));
                        assert(plan@ =~= prev_plan.push(plan@.last()));
                    }
                } else {
                    proof {
                        assert(safe_entries(all.take(i + 1)) =~= safe_entries(all.take(i as int)));
                    }
                }
            },
            Err(err) => {
                return Err(err);
            },
        }
        i = i + 1;
    }
    proof {
        assert(all.take(n as int) =~= all);
    }
    Ok(plan)
}

/// The plan action `a` puts entry `e` back: the same relative name, a
/// directory for a directory marker, and for a file the very bytes that
/// were archived.
pub open spec fn entry_restored(e: ArchiveEntry, a: PlanAction) -> bool {
    match a {
        PlanAction::MakeDir { name } => e.data is None && name@ == e.name@ + seq!['/'],
        PlanAction::WriteFile { name, data } => e.data matches Some(d) && name@ == e.name@
            && data@ == d@,
    }
}

/// Round-trip law: archiving well-formed entries and planning the extraction
/// of the resulting bytes loses nothing — the plan has one action per entry,
/// in order, and each action restores its entry's relative name and, for
/// files, its exact byte content.
pub proof fn lemma_round_trip(entries: Seq<ArchiveEntry>, plan: Seq<PlanAction>)
    requires
        forall|i: int| 0 <= i < entries.len() ==> (#[trigger] entries[i]).wf(),
        plan_matches(plan, entries.map_values(|e: ArchiveEntry| e.zip_model())),
    ensures
        plan.len() == entries.len(),
        forall|i: int| 0 <= i < entries.len() ==> entry_restored(entries[i], #[trigger] plan[i]),
{
    let models = entries.map_values(|e: ArchiveEntry| e.zip_model());
    lemma_wf_models_all_safe(entries);
    assert(plan.len() == entries.len());
    assert forall|i: int| 0 <= i < entries.len() implies entry_restored(
        entries[i],
        #[trigger] plan[i],
    ) by {
        assert(action_for(safe_entries(models)[i], plan[i]));
        assert(safe_entries(models)[i] == models[i]);
        let e = entries[i];
        match e.data {
            Some(_) => {
                assert(models[i].0 == e.name@);
                assert(models[i].0[models[i].0.len() - 1] != '/');
            },
            None => {
                assert(models[i].0 =~= e.name@ + seq!['/']);
                assert(models[i].0[models[i].0.len() - 1] == '/');
            },
        }
    }
}

/// Every model of a well-formed entry has a safe name, so the safe filter
/// keeps all of them.
proof fn lemma_wf_models_all_safe(entries: Seq<ArchiveEntry>)
    requires
        forall|i: int| 0 <= i < entries.len() ==> (#[trigger] entries[i]).wf(),
    ensures
        safe_entries(entries.map_values(|e: ArchiveEntry| e.zip_model())) =~= entries.map_values(
            |e: ArchiveEntry| e.zip_model(),
        ),
    decreases entries.len(),
{
    let models = entries.map_values(|e: ArchiveEntry| e.zip_model());
    if entries.len() > 0 {
        let head = entries.drop_last();
        lemma_wf_models_all_safe(head);
        assert(models.drop_last() =~= head.map_values(|e: ArchiveEntry| e.zip_model()));
        let e = entries.last();
        match e.data {
            Some(_) => {
                assert(entry_name_safe(models.last().0));
            },
            None => {
                lemma_safe_name_trailing_slash(e.name@);
                assert(models.last().0 =~= e.name@ + seq!['/']);
                assert(entry_name_safe(models.last().0));
            },
        }
        assert(safe_entries(models) =~= safe_entries(models.drop_last()).push(models.last()));
    }
}

} // verus!
