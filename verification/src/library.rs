//! The media library: the list of downloaded items, newest first, one per id.

use vstd::prelude::*;
use crate::media::MediaItem;
use crate::text::{str_eq, views};
use crate::web::{file_name_of, path_file_name};

verus! {

/// The items whose id differs from `id`, in their order.
pub open spec fn without_id(lib: Seq<MediaItem>, id: Seq<char>) -> Seq<MediaItem> {
    lib.filter(other_id(id))
}

/// Items whose id differs from `id`.
pub open spec fn other_id(id: Seq<char>) -> spec_fn(MediaItem) -> bool {
    |i: MediaItem| i.id@ != id
}

/// No two items share an id.
pub open spec fn ids_unique(lib: Seq<MediaItem>) -> bool {
    forall|a: int, b: int|
        0 <= a < b < lib.len() ==> (#[trigger] lib[a]).id@ != (#[trigger] lib[b]).id@
}

/// Some item has the id.
pub open spec fn has_id(lib: Seq<MediaItem>, id: Seq<char>) -> bool {
    exists|k: int| 0 <= k < lib.len() && (#[trigger] lib[k]).id@ == id
}

/// The library with `item` first and any other item of its id dropped.
pub open spec fn saved_spec(lib: Seq<MediaItem>, item: MediaItem) -> Seq<MediaItem> {
    seq![item] + without_id(lib, item.id@)
}

/// Remove every item with the id, keeping the others in order.
pub fn remove_id(lib: Vec<MediaItem>, id: &str) -> (r: Vec<MediaItem>)
    ensures
        r@ == without_id(lib@, id@),
{
    let ghost orig = lib@;
    let n = lib.len();
    let mut rest = lib;
    let mut out: Vec<MediaItem> = Vec::new();
    let mut k: usize = 0;
    assert(rest@ =~= orig.skip(0));
    while rest.len() > 0
        invariant
            k + rest@.len() == orig.len(),
            n == orig.len(),
            rest@ == orig.skip(k as int),
            out@ == without_id(orig.take(k as int), id@),
        decreases rest.len(),
    {
        let x = rest.remove(0);
        proof {
            assert(x == orig[k as int]);
            assert(orig.take(k + 1) =~= orig.take(k as int).push(x));
            orig.take(k as int).lemma_filter_push(x, other_id(id@));
            assert(rest@ =~= orig.skip(k + 1));
        }
        if !str_eq(x.id.as_str(), id) {
            out.push(x);
        }
        k = k + 1;
    }
    assert(orig.take(orig.len() as int) =~= orig);
    out
}

/// The library after saving `item`: it comes first and replaces any item of its id.
pub fn save_item(lib: Vec<MediaItem>, item: MediaItem) -> (r: Vec<MediaItem>)
    ensures
        r@ == saved_spec(lib@, item),
{
    let rest = remove_id(lib, item.id.as_str());
    let mut out: Vec<MediaItem> = Vec::new();
    out.push(item);
    let mut rest = rest;
    out.append(&mut rest);
    out
}

/// The library after deleting an id, and whether anything was removed.
pub fn delete_item(lib: Vec<MediaItem>, id: &str) -> (r: (Vec<MediaItem>, bool))
    ensures
        r.0@ == without_id(lib@, id@),
        r.1 == (r.0@.len() != lib@.len()),
        r.1 == has_id(lib@, id@),
{
    let ghost orig = lib@;
    let n = lib.len();
    let out = remove_id(lib, id);
    proof {
        lemma_without_id_len(orig, id@);
    }
    let removed = out.len() != n;
    (out, removed)
}

/// The first item with the id.
pub fn find_item<'a>(lib: &'a Vec<MediaItem>, id: &str) -> (r: Option<&'a MediaItem>)
    ensures
        match r {
            Some(x) => exists|k: int|
                0 <= k < lib@.len() && lib@[k] == *x && x.id@ == id@ && forall|j: int|
                    0 <= j < k ==> (#[trigger] lib@[j]).id@ != id@,
            None => !has_id(lib@, id@),
        },
{
    let mut i: usize = 0;
    while i < lib.len()
        invariant
            i <= lib.len(),
            forall|j: int| 0 <= j < i ==> (#[trigger] lib@[j]).id@ != id@,
        decreases lib.len() - i,
    {
        if str_eq(lib[i].id.as_str(), id) {
            return Some(&lib[i]);
        }
        i = i + 1;
    }
    None
}

/// A name as a list of at most one.
pub open spec fn name_list(o: Option<Seq<char>>) -> Seq<Seq<char>> {
    match o {
        Some(n) => seq![n],
        None => Seq::empty(),
    }
}

/// The files of an item in the download folder: the final components of its
/// media file's path and of its cover's path, where they have one.
pub open spec fn item_files_spec(item: MediaItem) -> Seq<Seq<char>> {
    name_list(path_file_name(item.file_name@)) + match item.cover_file {
        Some(c) => name_list(path_file_name(c@)),
        None => Seq::empty(),
    }
}

/// The names of an item's files in the download folder, which are removed
/// with it (see `item_files_spec`). Being final path components, each names a
/// file directly inside that folder.
pub fn item_files(item: &MediaItem) -> (r: Vec<String>)
    ensures
        views(r@) == item_files_spec(*item),
{
    let mut out: Vec<String> = Vec::new();
    match file_name_of(item.file_name.as_str()) {
        Some(n) => out.push(n),
        None => {},
    }
    let ghost first = views(out@);
    assert(first =~= name_list(path_file_name(item.file_name@)));
    match &item.cover_file {
        Some(c) => match file_name_of(c.as_str()) {
            Some(n) => {
                out.push(n);
                assert(views(out@) =~= first.push(n@));
            },
            None => {},
        },
        None => {},
    }
    assert(views(out@) =~= item_files_spec(*item));
    out
}

/// Dropping an id shortens the library exactly when some item has it.
pub proof fn lemma_without_id_len(lib: Seq<MediaItem>, id: Seq<char>)
    ensures
        without_id(lib, id).len() <= lib.len(),
        (without_id(lib, id).len() != lib.len()) == has_id(lib, id),
    decreases lib.len(),
{
    reveal_with_fuel(Seq::filter, 1);
    if lib.len() > 0 {
        let init = lib.drop_last();
        lemma_without_id_len(init, id);
        assert(init.push(lib.last()) =~= lib);
        init.lemma_filter_push(lib.last(), other_id(id));
        if has_id(init, id) {
            let k = choose|k: int| 0 <= k < init.len() && (#[trigger] init[k]).id@ == id;
            assert(lib[k] == init[k]);
        }
        if has_id(lib, id) && lib.last().id@ != id {
            let k = choose|k: int| 0 <= k < lib.len() && (#[trigger] lib[k]).id@ == id;
            assert(init[k] == lib[k]);
        }
    }
}

/// No item that is kept has the removed id.
pub proof fn lemma_without_id_absent(lib: Seq<MediaItem>, id: Seq<char>)
    ensures
        !has_id(without_id(lib, id), id),
{
    broadcast use vstd::seq_lib::group_filter_ensures;

    let w = without_id(lib, id);
    if has_id(w, id) {
        let k = choose|k: int| 0 <= k < w.len() && (#[trigger] w[k]).id@ == id;
        assert(w[k].id@ != id);
    }
}

/// Removing ids keeps uniqueness.
pub proof fn lemma_without_id_unique(lib: Seq<MediaItem>, id: Seq<char>)
    requires
        ids_unique(lib),
    ensures
        ids_unique(without_id(lib, id)),
    decreases lib.len(),
{
    reveal_with_fuel(Seq::filter, 1);
    if lib.len() > 0 {
        let init = lib.drop_last();
        assert(init.push(lib.last()) =~= lib);
        lemma_without_id_unique(init, id);
        init.lemma_filter_push(lib.last(), other_id(id));
        let wi = without_id(init, id);
        if lib.last().id@ != id {
            assert forall|k: int| 0 <= k < wi.len() implies (#[trigger] wi[k]).id@ != lib.last().id@ by {
                assert(wi.contains(wi[k]));
                init.lemma_filter_contains_rev(other_id(id), wi[k]);
                let j = choose|j: int| 0 <= j < init.len() && init[j] == wi[k];
                assert(lib[j] == init[j]);
                assert(lib[lib.len() - 1] == lib.last());
            }
        }
    }
}

/// Saving an item leaves exactly one item of its id, first, and keeps every
/// other item; a library with unique ids keeps them unique.
pub proof fn lemma_save_item(lib: Seq<MediaItem>, item: MediaItem)
    ensures
        saved_spec(lib, item)[0] == item,
        !has_id(saved_spec(lib, item).skip(1), item.id@),
        saved_spec(lib, item).skip(1) == without_id(lib, item.id@),
        ids_unique(lib) ==> ids_unique(saved_spec(lib, item)),
{
    lemma_without_id_absent(lib, item.id@);
    let s = saved_spec(lib, item);
    assert(s.skip(1) =~= without_id(lib, item.id@));
    if ids_unique(lib) {
        lemma_without_id_unique(lib, item.id@);
        let w = without_id(lib, item.id@);
        assert forall|a: int, b: int| 0 <= a < b < s.len() implies (#[trigger] s[a]).id@ != (
        #[trigger] s[b]).id@ by {
            if a == 0 {
                assert(s[b] == w[b - 1]);
                if w[b - 1].id@ == item.id@ {
                    assert(has_id(w, item.id@));
                }
            } else {
                assert(s[a] == w[a - 1]);
                assert(s[b] == w[b - 1]);
            }
        }
    }
}

/// Deleting the id of an item just saved gives back the library without that id.
pub proof fn lemma_delete_after_save(lib: Seq<MediaItem>, item: MediaItem)
    ensures
        without_id(saved_spec(lib, item), item.id@) == without_id(lib, item.id@),
{
    let w = without_id(lib, item.id@);
    let p = other_id(item.id@);
    assert(saved_spec(lib, item) =~= seq![item] + w);
    Seq::filter_distributes_over_add(seq![item], w, p);
    reveal_with_fuel(Seq::filter, 2);
    assert(seq![item].filter(p) =~= Seq::<MediaItem>::empty()) by {
        assert(seq![item] =~= Seq::<MediaItem>::empty().push(item));
        Seq::<MediaItem>::empty().lemma_filter_push(item, p);
    }
    lemma_filter_idempotent(lib, p);
    assert(Seq::<MediaItem>::empty() + w.filter(p) =~= w.filter(p));
}

proof fn lemma_filter_idempotent(s: Seq<MediaItem>, p: spec_fn(MediaItem) -> bool)
    ensures
        s.filter(p).filter(p) == s.filter(p),
    decreases s.len(),
{
    reveal_with_fuel(Seq::filter, 1);
    if s.len() > 0 {
        let init = s.drop_last();
        assert(init.push(s.last()) =~= s);
        lemma_filter_idempotent(init, p);
        init.lemma_filter_push(s.last(), p);
        init.filter(p).lemma_filter_push(s.last(), p);
    }
}


/// How many items of the library are of a kind (`"audio"`, `"video"`, ...).
pub open spec fn count_kind(lib: Seq<MediaItem>, kind: Seq<char>) -> nat
    decreases lib.len(),
{
    if lib.len() == 0 {
        0
    } else {
        count_kind(lib.drop_last(), kind) + (if lib.last().media_type@ == kind {
            1nat
        } else {
            0nat
        })
    }
}

proof fn lemma_count_kind_bound(lib: Seq<MediaItem>, kind: Seq<char>)
    ensures
        count_kind(lib, kind) <= lib.len(),
    decreases lib.len(),
{
    if lib.len() > 0 {
        lemma_count_kind_bound(lib.drop_last(), kind);
    }
}

/// The numbers of audio tracks and of videos in the library.
pub fn media_counts(lib: &Vec<MediaItem>) -> (r: (usize, usize))
    ensures
        r.0 == count_kind(lib@, "audio"@),
        r.1 == count_kind(lib@, "video"@),
{
    let mut audio: usize = 0;
    let mut video: usize = 0;
    let mut i: usize = 0;
    while i < lib.len()
        invariant
            i <= lib.len(),
            audio == count_kind(lib@.take(i as int), "audio"@),
            video == count_kind(lib@.take(i as int), "video"@),
        decreases lib.len() - i,
    {
        proof {
            assert(lib@.take(i + 1).drop_last() =~= lib@.take(i as int));
            lemma_count_kind_bound(lib@.take(i as int), "audio"@);
            lemma_count_kind_bound(lib@.take(i as int), "video"@);
        }
        if str_eq(lib[i].media_type.as_str(), "audio") {
            audio = audio + 1;
        }
        if str_eq(lib[i].media_type.as_str(), "video") {
            video = video + 1;
        }
        i = i + 1;
    }
    assert(lib@.take(lib.len() as int) =~= lib@);
    (audio, video)
}

/// Items of a kind.
pub open spec fn of_kind(kind: Seq<char>) -> spec_fn(MediaItem) -> bool {
    |i: MediaItem| i.media_type@ == kind
}

/// The items of a kind (`"audio"`, `"video"`, `"photo"`), in their order.
pub fn items_of_kind(lib: Vec<MediaItem>, kind: &str) -> (r: Vec<MediaItem>)
    ensures
        r@ == lib@.filter(of_kind(kind@)),
{
    let ghost orig = lib@;
    let n = lib.len();
    let mut rest = lib;
    let mut out: Vec<MediaItem> = Vec::new();
    let mut k: usize = 0;
    assert(rest@ =~= orig.skip(0));
    while rest.len() > 0
        invariant
            k + rest@.len() == orig.len(),
            n == orig.len(),
            rest@ == orig.skip(k as int),
            out@ == orig.take(k as int).filter(of_kind(kind@)),
        decreases rest.len(),
    {
        let x = rest.remove(0);
        proof {
            assert(x == orig[k as int]);
            assert(orig.take(k + 1) =~= orig.take(k as int).push(x));
            orig.take(k as int).lemma_filter_push(x, of_kind(kind@));
            assert(rest@ =~= orig.skip(k + 1));
        }
        if str_eq(x.media_type.as_str(), kind) {
            out.push(x);
        }
        k = k + 1;
    }
    assert(orig.take(orig.len() as int) =~= orig);
    out
}

/// The cover a request for `id` asks for: none for `default`, else the cover
/// file of the first item with the id, if it has one.
pub open spec fn cover_request_spec(lib: Seq<MediaItem>, id: Seq<char>) -> Option<Seq<char>> {
    if id == "default"@ {
        None
    } else {
        match first_with_id(lib, id) {
            Some(k) => match lib[k].cover_file {
                Some(c) => Some(c@),
                None => None,
            },
            None => None,
        }
    }
}

/// Where the first item with the id stands.
pub open spec fn first_with_id(lib: Seq<MediaItem>, id: Seq<char>) -> Option<int> {
    if has_id(lib, id) {
        Some(choose|k: int| 0 <= k < lib.len() && lib[k].id@ == id && forall|j: int| 0 <= j < k ==> (#[trigger] lib[j]).id@ != id)
    } else {
        None
    }
}

/// The cover file a request for `id` asks for (see `cover_request_spec`);
/// `None` means the default cover.
pub fn cover_request(lib: &Vec<MediaItem>, id: &str) -> (r: Option<String>)
    ensures
        match r {
            Some(c) => cover_request_spec(lib@, id@) == Some(c@),
            None => cover_request_spec(lib@, id@) is None,
        },
{
    if str_eq(id, "default") {
        return None;
    }
    let mut i: usize = 0;
    while i < lib.len()
        invariant
            i <= lib.len(),
            id@ != "default"@,
            forall|j: int| 0 <= j < i ==> (#[trigger] lib@[j]).id@ != id@,
        decreases lib.len() - i,
    {
        if str_eq(lib[i].id.as_str(), id) {
            proof {
                let k = first_with_id(lib@, id@);
                assert(has_id(lib@, id@));
                let c = choose|k: int| 0 <= k < lib@.len() && lib@[k].id@ == id@ && forall|j: int| 0 <= j < k ==> (#[trigger] lib@[j]).id@ != id@;
                assert(0 <= c < lib@.len() && lib@[c].id@ == id@ && forall|j: int| 0 <= j < c ==> (#[trigger] lib@[j]).id@ != id@);
                if c < i {
                    assert(lib@[c].id@ != id@);
                }
                if c > i {
                    assert(lib@[i as int].id@ != id@);
                }
                assert(c == i);
            }
            return match &lib[i].cover_file {
                Some(c) => Some(c.clone()),
                None => None,
            };
        }
        i = i + 1;
    }
    assert(!has_id(lib@, id@));
    None
}

/// The first item stored under a file name, if any.
pub fn find_by_file_name<'a>(lib: &'a Vec<MediaItem>, file_name: &str) -> (r: Option<&'a MediaItem>)
    ensures
        match r {
            Some(item) => exists|k: int|
                0 <= k < lib@.len() && lib@[k] == *item && item.file_name@ == file_name@ && forall|j: int|
                    0 <= j < k ==> (#[trigger] lib@[j]).file_name@ != file_name@,
            None => forall|j: int| 0 <= j < lib@.len() ==> (#[trigger] lib@[j]).file_name@ != file_name@,
        },
{
    let mut i: usize = 0;
    while i < lib.len()
        invariant
            i <= lib.len(),
            forall|j: int| 0 <= j < i ==> (#[trigger] lib@[j]).file_name@ != file_name@,
        decreases lib.len() - i,
    {
        if str_eq(lib[i].file_name.as_str(), file_name) {
            return Some(&lib[i]);
        }
        i = i + 1;
    }
    None
}

} // verus!

