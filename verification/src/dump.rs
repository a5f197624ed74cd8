//! What extracting a package or a soundbank writes: one item per file, with
//! the directory it goes to, its ID and its bytes.

use vstd::prelude::*;
use crate::bnk::SoundBank;
use crate::bnk::media::media_slice_entries;
use crate::listing::{lemma_sorted_entries_listing, sort_by_id, sorted_listing, viewed};
use crate::pck::string_map::language_map_entries;
use crate::pck::{bank_media, PckFile};

verus! {

/// The directory an extracted file goes to, below its language.
#[derive(Debug, Clone, Copy, PartialEq, Eq, Structural)]
pub enum DumpDir {
    /// A sound bank.
    Banks,
    /// A WEM embedded in the sound bank with this ID.
    BankMedia(u32),
    /// A streaming file.
    Streaming,
    /// An external file.
    External,
}

/// One file to extract.
#[derive(Debug)]
pub struct DumpItem<'a> {
    /// The name of the entry's language.
    pub language: String,
    pub dir: DumpDir,
    pub id: u64,
    pub data: &'a [u8],
}

/// An item as plain values: language, directory, ID and bytes.
pub open spec fn item_view(it: DumpItem) -> (Seq<char>, DumpDir, u64, Seq<u8>) {
    (it.language@, it.dir, it.id, it.data@)
}

/// A plan as plain values.
pub open spec fn plan_view(v: Seq<DumpItem>) -> Seq<(Seq<char>, DumpDir, u64, Seq<u8>)> {
    v.map_values(|it: DumpItem| item_view(it))
}

/// An entry with `id` is extracted under the ID filter.
pub open spec fn passes(filter: Option<u32>, id: u32) -> bool {
    filter matches Some(f) ==> f == id
}

/// The language name an entry is filed under: "SFX" for language 0, the
/// package's name for the language, or "Unknown".
pub open spec fn language_label(f: PckFile, id: u32) -> Seq<char> {
    if id == 0 {
        "SFX"@
    } else if language_map_entries(f.languages).contains_key(id) {
        language_map_entries(f.languages)[id]
    } else {
        "Unknown"@
    }
}

/// The items for the media of a sound bank, listed in increasing ID order.
pub open spec fn media_items(lang: Seq<char>, bank_id: u32, s: Seq<(u32, Seq<u8>)>) -> Seq<
    (Seq<char>, DumpDir, u64, Seq<u8>),
> {
    s.map_values(|p: (u32, Seq<u8>)| (lang, DumpDir::BankMedia(bank_id), p.0 as u64, p.1))
}

/// The items for one sound bank: the bank itself, then, when its bytes
/// parse as a soundbank, each of its embedded media.
pub open spec fn bank_items(f: PckFile, id: u32, language_id: u32, data: Seq<u8>) -> Seq<
    (Seq<char>, DumpDir, u64, Seq<u8>),
> {
    let lang = language_label(f, language_id);
    seq![(lang, DumpDir::Banks, id as u64, data)] + if crate::bnk::bnk_ok(data) {
        media_items(lang, id, sorted_listing(bank_media(data)))
    } else {
        Seq::empty()
    }
}

/// The items for the first `k` sound banks that pass the filter.
pub open spec fn banks_plan(f: PckFile, filter: Option<u32>, k: int) -> Seq<
    (Seq<char>, DumpDir, u64, Seq<u8>),
>
    decreases k,
{
    if k <= 0 {
        Seq::empty()
    } else {
        let e = f.sound_banks@[k - 1];
        banks_plan(f, filter, k - 1) + if passes(filter, e.id) {
            bank_items(f, e.id, e.language_id, e.data@)
        } else {
            Seq::empty()
        }
    }
}

/// The items for the first `k` streaming files that pass the filter.
pub open spec fn streams_plan(f: PckFile, filter: Option<u32>, k: int) -> Seq<
    (Seq<char>, DumpDir, u64, Seq<u8>),
>
    decreases k,
{
    if k <= 0 {
        Seq::empty()
    } else {
        let e = f.streaming_files@[k - 1];
        streams_plan(f, filter, k - 1) + if passes(filter, e.id) {
            seq![(language_label(f, e.language_id), DumpDir::Streaming, e.id as u64, e.data@)]
        } else {
            Seq::empty()
        }
    }
}

/// The items for the first `k` external files (the filter does not apply).
pub open spec fn externals_plan(f: PckFile, k: int) -> Seq<(Seq<char>, DumpDir, u64, Seq<u8>)>
    decreases k,
{
    if k <= 0 {
        Seq::empty()
    } else {
        let e = f.external_files@[k - 1];
        externals_plan(f, k - 1) + seq![
            (language_label(f, e.language_id), DumpDir::External, e.id, e.data@),
        ]
    }
}

/// Everything extracting a package writes: its sound banks in LUT order,
/// each followed by its embedded media, then its streaming files, then its
/// external files.
pub open spec fn pck_dump_plan(f: PckFile, filter: Option<u32>) -> Seq<(Seq<char>, DumpDir, u64, Seq<u8>)> {
    banks_plan(f, filter, f.sound_banks@.len() as int) + streams_plan(
        f,
        filter,
        f.streaming_files@.len() as int,
    ) + externals_plan(f, f.external_files@.len() as int)
}

/// The entries of the first `k` listed media that pass the filter.
pub open spec fn filter_listing(s: Seq<(u32, Seq<u8>)>, filter: Option<u32>, k: int) -> Seq<(u32, Seq<u8>)>
    decreases k,
{
    if k <= 0 {
        Seq::empty()
    } else {
        filter_listing(s, filter, k - 1) + if passes(filter, s[k - 1].0) {
            seq![s[k - 1]]
        } else {
            Seq::empty()
        }
    }
}

/// The embedded media of a soundbank in increasing ID order, with the
/// bank's media map.
fn sorted_media<'a>(bank: &SoundBank<'a>) -> (v: Vec<(u32, &'a [u8])>)
    ensures
        viewed(v@) == sorted_listing(media_slice_entries(bank.media)),
{
    let entries = bank.media.entries();
    let sorted = sort_by_id(entries);
    proof {
        lemma_sorted_entries_listing(entries@, sorted@, media_slice_entries(bank.media));
    }
    sorted
}

/// Plan the extraction of a package: each sound bank that passes the ID
/// filter, followed by the media embedded in it when its bytes parse as a
/// soundbank (whatever their IDs); each streaming file that passes the
/// filter; every external file. Each item carries its language's name.
pub fn dump_plan<'a>(pck: &PckFile<'a>, filter_id: Option<u32>) -> (plan: Vec<DumpItem<'a>>)
    ensures
        plan_view(plan@) == pck_dump_plan(*pck, filter_id),
{
    let ghost f = *pck;
    let mut plan: Vec<DumpItem<'a>> = Vec::new();
    let mut i: usize = 0;
    while i < pck.sound_banks.len()
        invariant
            f == *pck,
            i <= pck.sound_banks@.len(),
            plan_view(plan@) == banks_plan(f, filter_id, i as int),
        decreases pck.sound_banks@.len() - i,
    {
        let entry = &pck.sound_banks[i];
        let pass = match filter_id {
            Some(x) => x == entry.id,
            None => true,
        };
        if pass {
            let lang = pck.language_name(entry.language_id);
            let ghost label = language_label(f, entry.language_id);
            assert(lang@ == label);
            let ghost before = plan_view(plan@);
            plan.push(DumpItem { language: lang.to_owned(), dir: DumpDir::Banks, id: entry.id as u64, data: entry.data });
            let ghost head = before + seq![(label, DumpDir::Banks, entry.id as u64, entry.data@)];
            assert(plan_view(plan@) =~= head);
            match SoundBank::parse(entry.data) {
                Ok(bank) => {
                    let media = sorted_media(&bank);
                    let ghost s = viewed(media@);
                    proof {
                        assert(media_slice_entries(bank.media) == bank_media(entry.data@));
                        assert(head.len() == plan@.len());
                    }
                    let mut j: usize = 0;
                    while j < media.len()
                        invariant
                            s == viewed(media@),
                            j <= media@.len(),
                            plan_view(plan@) == head + media_items(label, entry.id, s.take(j as int)),
                            lang@ == label,
                        decreases media@.len() - j,
                    {
                        let (mid, mdata) = media[j];
                        let ghost prev = plan_view(plan@);
                        plan.push(DumpItem { language: lang.to_owned(), dir: DumpDir::BankMedia(entry.id), id: mid as u64, data: mdata });
                        proof {
                            assert(s.take(j + 1) =~= s.take(j as int).push(s[j as int]));
                            assert(media_items(label, entry.id, s.take(j + 1)) =~= media_items(
                                label,
                                entry.id,
                                s.take(j as int),
                            ).push((label, DumpDir::BankMedia(entry.id), mid as u64, mdata@)));
                            assert(plan_view(plan@) =~= prev.push(
                                (label, DumpDir::BankMedia(entry.id), mid as u64, mdata@),
                            ));
                        }
                        j = j + 1;
                    }
                    proof {
                        assert(s.take(media@.len() as int) =~= s);
                        assert(banks_plan(f, filter_id, i + 1) =~= banks_plan(f, filter_id, i as int)
                            + bank_items(f, entry.id, entry.language_id, entry.data@));
                        assert(plan_view(plan@) =~= banks_plan(f, filter_id, i + 1));
                    }
                },
                Err(_) => {
                    assert(banks_plan(f, filter_id, i + 1) =~= head);
                },
            }
        } else {
            assert(banks_plan(f, filter_id, i + 1) =~= banks_plan(f, filter_id, i as int));
        }
        i = i + 1;
    }
    let ghost banks = plan_view(plan@);
    let mut k: usize = 0;
    assert(plan_view(plan@) =~= banks + streams_plan(f, filter_id, 0));
    while k < pck.streaming_files.len()
        invariant
            f == *pck,
            k <= pck.streaming_files@.len(),
            plan_view(plan@) == banks + streams_plan(f, filter_id, k as int),
        decreases pck.streaming_files@.len() - k,
    {
        let entry = &pck.streaming_files[k];
        let pass = match filter_id {
            Some(x) => x == entry.id,
            None => true,
        };
        let ghost prev = plan_view(plan@);
        if pass {
            let lang = pck.language_name(entry.language_id);
            assert(lang@ == language_label(f, entry.language_id));
            plan.push(DumpItem { language: lang.to_owned(), dir: DumpDir::Streaming, id: entry.id as u64, data: entry.data });
            assert(plan_view(plan@) =~= prev.push(
                (language_label(f, entry.language_id), DumpDir::Streaming, entry.id as u64, entry.data@),
            ));
            assert(plan_view(plan@) =~= banks + streams_plan(f, filter_id, k + 1));
        } else {
            assert(plan_view(plan@) =~= banks + streams_plan(f, filter_id, k + 1));
        }
        k = k + 1;
    }
    let ghost bs = plan_view(plan@);
    let mut x: usize = 0;
    assert(plan_view(plan@) =~= bs + externals_plan(f, 0));
    while x < pck.external_files.len()
        invariant
            f == *pck,
            x <= pck.external_files@.len(),
            plan_view(plan@) == bs + externals_plan(f, x as int),
        decreases pck.external_files@.len() - x,
    {
        let entry = &pck.external_files[x];
        let lang = pck.language_name(entry.language_id);
        assert(lang@ == language_label(f, entry.language_id));
        let ghost prev = plan_view(plan@);
        plan.push(DumpItem { language: lang.to_owned(), dir: DumpDir::External, id: entry.id, data: entry.data });
        assert(plan_view(plan@) =~= prev.push(
            (language_label(f, entry.language_id), DumpDir::External, entry.id, entry.data@),
        ));
        assert(plan_view(plan@) =~= bs + externals_plan(f, x + 1));
        x = x + 1;
    }
    plan
}

/// Plan the extraction of a soundbank: its embedded media that pass the ID
/// filter, in increasing ID order.
pub fn bank_media_plan<'a>(bank: &SoundBank<'a>, filter_id: Option<u32>) -> (plan: Vec<(u32, &'a [u8])>)
    ensures
        viewed(plan@) == filter_listing(
            sorted_listing(media_slice_entries(bank.media)),
            filter_id,
            sorted_listing(media_slice_entries(bank.media)).len() as int,
        ),
{
    let media = sorted_media(bank);
    let ghost s = viewed(media@);
    let mut plan: Vec<(u32, &'a [u8])> = Vec::new();
    let mut j: usize = 0;
    while j < media.len()
        invariant
            s == viewed(media@),
            j <= media@.len(),
            viewed(plan@) == filter_listing(s, filter_id, j as int),
        decreases media@.len() - j,
    {
        let (id, data) = media[j];
        let pass = match filter_id {
            Some(x) => x == id,
            None => true,
        };
        if pass {
            plan.push((id, data));
        }
        assert(viewed(plan@) =~= filter_listing(s, filter_id, j + 1));
        j = j + 1;
    }
    plan
}

} // verus!
