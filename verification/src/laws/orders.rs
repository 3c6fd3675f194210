//! In which order things are listed, and which are kept.

use crate::context::{kept_files, FileContext, FileView, TreeEntry, TreeView};
use crate::driver::{listed_files, FileEntry, FileEntryView};
use crate::order::{ordered, ordered_is_sorted, text_less, Ranked};
use crate::session::{MetaView, SessionMeta};
use crate::text::Text;
use vstd::prelude::*;

verus! {

/// The entries of a directory are shown by name.
pub proof fn trees_are_by_name(entries: Seq<TreeView>, i: int, j: int)
    requires
        0 <= i < j < entries.len(),
    ensures
        ({
            let o = ordered::<TreeEntry>(entries);
            &&& o.len() == entries.len()
            &&& !text_less(o[j].name, o[i].name)
            &&& o.to_multiset() == entries.to_multiset()
        }),
{
    ordered_is_sorted::<TreeEntry>(entries);
    let o = ordered::<TreeEntry>(entries);
    assert(!<TreeEntry as Ranked>::precedes(o[j], o[i]));
}

/// Texts are sorted from the first to the last.
pub proof fn texts_are_sorted(ts: Seq<Text>, i: int, j: int)
    requires
        0 <= i < j < ts.len(),
    ensures
        ({
            let o = ordered::<String>(ts);
            &&& o.len() == ts.len()
            &&& !text_less(o[j], o[i])
            &&& o.to_multiset() == ts.to_multiset()
        }),
{
    ordered_is_sorted::<String>(ts);
    let o = ordered::<String>(ts);
    assert(!<String as Ranked>::precedes(o[j], o[i]));
}

/// Files are listed with directories first, each kind by name.
pub proof fn files_are_by_kind_and_name(entries: Seq<FileEntryView>, i: int, j: int)
    requires
        0 <= i < j < listed_files(entries).len(),
    ensures
        ({
            let l = listed_files(entries);
            &&& l[j].is_dir ==> l[i].is_dir
            &&& l[i].is_dir == l[j].is_dir ==> !text_less(l[j].name, l[i].name)
        }),
{
    let f = entries.filter(|e: FileEntryView| crate::driver::is_listed(e.name));
    ordered_is_sorted::<FileEntry>(f);
    let l = listed_files(entries);
    assert(!<FileEntry as Ranked>::precedes(l[j], l[i]));
}

/// Sessions are listed with the latest first.
pub proof fn sessions_are_latest_first(sessions: Seq<MetaView>, i: int, j: int)
    requires
        0 <= i < j < sessions.len(),
    ensures
        ({
            let o = ordered::<SessionMeta>(sessions);
            &&& o.len() == sessions.len()
            &&& !text_less(o[i].updated_at, o[j].updated_at)
        }),
{
    ordered_is_sorted::<SessionMeta>(sessions);
    let o = ordered::<SessionMeta>(sessions);
    assert(!<SessionMeta as Ranked>::precedes(o[j], o[i]));
}

/// The smallest files are kept, in order of their size: whatever is left out is no
/// smaller than what is kept, and nothing is left out while there is room.
pub proof fn the_smallest_files_are_kept(files: Seq<FileView>, max: int, i: int, j: int)
    requires
        max >= 0,
    ensures
        ({
            let k = kept_files(files, max);
            let all = ordered::<FileContext>(files);
            &&& files.len() <= max ==> k.len() == files.len()
            &&& files.len() > max ==> k.len() == max
            &&& 0 <= i < j < k.len() ==> k[i].estimated_tokens <= k[j].estimated_tokens
            &&& all.to_multiset() == files.to_multiset()
            &&& k == all.take(k.len() as int)
            &&& 0 <= i < k.len() && k.len() <= j < all.len() ==> k[i].estimated_tokens
                <= all[j].estimated_tokens
        }),
{
    ordered_is_sorted::<FileContext>(files);
    let k = kept_files(files, max);
    let all = ordered::<FileContext>(files);
    assert(k =~= all.take(k.len() as int));
    if 0 <= i < j < all.len() {
        assert(!<FileContext as Ranked>::precedes(all[j], all[i]));
    }
}

} // verus!
