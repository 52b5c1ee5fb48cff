//! Folder navigation: which files of a directory are images, in what order they are paged
//! through, and the cursor behind the arrow keys and the status-bar count.
//!
//! The cursor is a snapshot taken when the directory was listed; it is not listed again while
//! paging.
use crate::natural::{is_natural_listing, listed_before, natural_listing, views};
use crate::paths::{
    extension_of, file_name_of, path_extension, path_file_name, text_of, to_lowercase,
    unicode_lowercase,
};
use crate::text::{ascii_lower_seq, chars_of, fold_ascii_str, same_text};
use vstd::prelude::*;

verus! {

/// The image file extensions that can be opened, in lower case.
pub open spec fn image_exts() -> Seq<Seq<char>> {
    seq![
        "png"@, "jpg"@, "jpeg"@, "jpe"@, "jfif"@, "gif"@, "bmp"@, "dib"@, "tif"@, "tiff"@,
        "webp"@, "ico"@, "tga"@, "qoi"@, "ppm"@, "pgm"@, "pbm"@, "pnm"@, "ff"@, "jxl"@, "hdr"@,
        "exr"@, "psd"@, "psb"@, "heic"@, "heif"@, "avif"@, "cr2"@, "cr3"@, "crw"@, "nef"@,
        "nrw"@, "arw"@, "srf"@, "sr2"@, "raf"@, "orf"@, "rw2"@, "pef"@, "srw"@, "dng"@, "x3f"@,
        "3fr"@, "fff"@, "iiq"@, "erf"@, "mrw"@, "dcr"@, "kdc"@, "mef"@, "mos"@, "rwl"@, "gpr"@,
        "raw"@,
    ]
}

fn image_ext_list() -> (v: Vec<&'static str>)
    ensures
        v.len() == image_exts().len(),
        forall|k: int| 0 <= k < v.len() ==> #[trigger] v@[k]@ == image_exts()[k],
{
    vec![
        "png", "jpg", "jpeg", "jpe", "jfif", "gif", "bmp", "dib", "tif", "tiff", "webp", "ico",
        "tga", "qoi", "ppm", "pgm", "pbm", "pnm", "ff", "jxl", "hdr", "exr", "psd", "psb", "heic",
        "heif", "avif", "cr2", "cr3", "crw", "nef", "nrw", "arw", "srf", "sr2", "raf", "orf",
        "rw2", "pef", "srw", "dng", "x3f", "3fr", "fff", "iiq", "erf", "mrw", "dcr", "kdc", "mef",
        "mos", "rwl", "gpr", "raw",
    ]
}

/// Whether an extension is in the list, whatever its ASCII case; no extension is not.
pub open spec fn is_image_ext(ext: Option<Seq<char>>) -> bool {
    match ext {
        Some(e) => image_exts().contains(ascii_lower_seq(e)),
        None => false,
    }
}

/// Whether `ext` is the extension of an image that can be opened.
pub fn is_supported_extension(ext: &str) -> (r: bool)
    ensures
        r == is_image_ext(Some(ext@)),
{
    let lower = fold_ascii_str(ext);
    let exts = image_ext_list();
    let mut i: usize = 0;
    while i < exts.len()
        invariant
            i <= exts.len(),
            exts.len() == image_exts().len(),
            lower@ == ascii_lower_seq(ext@),
            forall|k: int| 0 <= k < exts.len() ==> #[trigger] exts@[k]@ == image_exts()[k],
            forall|k: int| 0 <= k < i ==> image_exts()[k] != lower@,
        decreases exts.len() - i,
    {
        if same_text(exts[i], lower.as_str()) {
            assert(image_exts()[i as int] == lower@);
            return true;
        }
        i += 1;
    }
    false
}

/// Whether `path`'s extension is one that can be decoded, the membership test of folder
/// navigation.
pub fn is_supported_image(path: &str) -> (r: bool)
    ensures
        r == is_image_ext(path_extension(path@)),
{
    match extension_of(path) {
        Some(ext) => is_supported_extension(ext.as_str()),
        None => false,
    }
}

/// One entry of a directory listing.
pub struct Listed {
    pub path: String,
    /// Whether the entry is known to be a directory; one whose type cannot be read is not.
    pub is_dir: bool,
}

/// Whether a listed entry is an image to page through: not a directory, with an image extension
/// and a file name.
pub open spec fn is_sibling(entry: Listed) -> bool {
    &&& !entry.is_dir
    &&& is_image_ext(path_extension(entry.path@))
    &&& path_file_name(entry.path@) is Some
}

/// The file names of a listing, the empty name for an entry without one.
pub open spec fn listed_names(listing: Seq<Listed>) -> Seq<Seq<char>> {
    listing.map_values(
        |e: Listed|
            match path_file_name(e.path@) {
                Some(n) => n,
                None => Seq::empty(),
            },
    )
}

/// `order` holds the index of every image of the listing once, in natural order of the file
/// names, entries whose names compare equal in their listed order.
pub open spec fn is_scan_order(order: Seq<usize>, listing: Seq<Listed>) -> bool {
    &&& forall|k: int|
        0 <= k < order.len() ==> #[trigger] order[k] < listing.len() && is_sibling(
            listing[order[k] as int],
        )
    &&& forall|i: usize|
        i < listing.len() && is_sibling(listing[i as int]) ==> #[trigger] order.contains(i)
    &&& forall|k: int, l: int|
        0 <= k < l < order.len() ==> listed_before(
            listed_names(listing),
            #[trigger] order[k] as int,
            #[trigger] order[l] as int,
        )
}

/// The images of a directory listing in paging order, as indices into the listing.
pub fn scan_order(listing: &Vec<Listed>) -> (order: Vec<usize>)
    ensures
        is_scan_order(order@, listing@),
{
    let mut kept: Vec<usize> = Vec::new();
    let mut names: Vec<Vec<char>> = Vec::new();
    let mut i: usize = 0;
    while i < listing.len()
        invariant
            i <= listing.len(),
            kept.len() == names.len(),
            forall|k: int|
                0 <= k < kept.len() ==> #[trigger] kept@[k] < i && is_sibling(
                    listing@[kept@[k] as int],
                ) && names@[k]@ == listed_names(listing@)[kept@[k] as int],
            forall|k: int, l: int|
                0 <= k < l < kept.len() ==> #[trigger] kept@[k] < #[trigger] kept@[l],
            forall|j: usize| j < i && is_sibling(listing@[j as int]) ==> #[trigger] kept@.contains(j),
        decreases listing.len() - i,
    {
        let ghost was = kept@;
        let path = listing[i].path.as_str();
        if !listing[i].is_dir && is_supported_image(path) {
            if let Some(name) = file_name_of(path) {
                kept.push(i);
                names.push(chars_of(name.as_str()));
                assert(kept@[was.len() as int] == i);
                assert(names@[was.len() as int]@ == listed_names(listing@)[i as int]);
            }
        }
        proof {
            assert forall|j: usize|
                j < i + 1 && is_sibling(listing@[j as int]) implies #[trigger] kept@.contains(j) by {
                if j < i {
                    assert(was.contains(j));
                    let k = choose|k: int| 0 <= k < was.len() && was[k] == j;
                    assert(kept@[k] == j);
                }
            }
        }
        i += 1;
    }
    let listed = natural_listing(&names);
    let mut order: Vec<usize> = Vec::new();
    let mut k: usize = 0;
    while k < listed.len()
        invariant
            k <= listed.len(),
            kept.len() == names.len(),
            is_natural_listing(listed@, views(names@)),
            order.len() == k,
            forall|m: int| 0 <= m < k ==> #[trigger] order@[m] == kept@[listed@[m] as int],
        decreases listed.len() - k,
    {
        order.push(kept[listed[k]]);
        k += 1;
    }
    proof {
        assert forall|i: usize|
            i < listing.len() && is_sibling(listing@[i as int]) implies #[trigger] order@.contains(i) by {
            assert(kept@.contains(i));
            let j = choose|j: int| 0 <= j < kept.len() && kept@[j] == i;
            assert(listed@.contains(j as usize));
            let m = choose|m: int| 0 <= m < listed.len() && listed@[m] == j as usize;
            assert(order@[m] == i);
        }
        assert forall|k: int, l: int| 0 <= k < l < order.len() implies listed_before(
            listed_names(listing@),
            #[trigger] order@[k] as int,
            #[trigger] order@[l] as int,
        ) by {
            let (x, y) = (listed@[k] as int, listed@[l] as int);
            assert(listed_before(views(names@), x, y));
            assert(views(names@)[x] == listed_names(listing@)[kept@[x] as int]);
            assert(views(names@)[y] == listed_names(listing@)[kept@[y] as int]);
        }
    }
    order
}

/// The paths of the images of a directory listing, in file-manager order.
pub fn scan(listing: &Vec<Listed>) -> (paths: Vec<String>)
    ensures
        exists|order: Seq<usize>| #[trigger]
            is_scan_order(order, listing@) && paths@ == order.map_values(
                |i: usize| listing@[i as int].path,
            ),
{
    let order = scan_order(listing);
    let mut paths: Vec<String> = Vec::new();
    let mut k: usize = 0;
    while k < order.len()
        invariant
            k <= order.len(),
            is_scan_order(order@, listing@),
            paths.len() == k,
            forall|m: int| 0 <= m < k ==> #[trigger] paths@[m] == listing@[order@[m] as int].path,
        decreases order.len() - k,
    {
        paths.push(listing[order[k]].path.clone());
        k += 1;
    }
    assert(paths@ =~= order@.map_values(|i: usize| listing@[i as int].path));
    paths
}

/// The key by which the open image is found in a listing: its file name in lower case.
pub open spec fn name_key(path: Seq<char>) -> Option<Seq<char>> {
    match path_file_name(path) {
        Some(n) => Some(unicode_lowercase(n)),
        None => None,
    }
}

fn name_key_of(path: &str) -> (r: Option<String>)
    ensures
        text_of(r) == name_key(path@),
{
    match file_name_of(path) {
        Some(n) => Some(to_lowercase(n.as_str())),
        None => None,
    }
}

/// Where a cursor at `i` of `n` entries stands after a move by `delta`.
pub open spec fn wrapped(i: int, delta: int, n: int) -> int {
    (i + delta) % n
}

/// Sorted sibling images of a directory and the index of the current one.
pub struct Folder {
    entries: Vec<String>,
    current: usize,
}

impl Folder {
    #[verifier::type_invariant]
    spec fn valid(self) -> bool {
        self.current < self.entries.len()
    }

    /// The sibling paths in paging order.
    pub closed spec fn paths(self) -> Seq<String> {
        self.entries@
    }

    /// The index of the current path.
    pub closed spec fn cursor(self) -> int {
        self.current as int
    }

    /// A cursor over `entries`, standing at the first one with `current`'s name key; `None`
    /// where no entry has it, or `current` has no file name.
    pub fn new(entries: Vec<String>, current: &str) -> (r: Option<Folder>)
        ensures
            r is Some <==> name_key(current@) is Some && exists|k: int|
                0 <= k < entries.len() && name_key((#[trigger] entries@[k])@) == name_key(current@),
            r matches Some(f) ==> {
                &&& f.paths() == entries@
                &&& 0 <= f.cursor() < entries.len()
                &&& name_key(entries@[f.cursor()]@) == name_key(current@)
                &&& forall|k: int|
                    0 <= k < f.cursor() ==> name_key((#[trigger] entries@[k])@) != name_key(
                        current@,
                    )
            },
    {
        let key = match name_key_of(current) {
            Some(key) => key,
            None => {
                return None;
            },
        };
        let mut i: usize = 0;
        while i < entries.len()
            invariant
                i <= entries.len(),
                name_key(current@) == Some(key@),
                forall|k: int|
                    0 <= k < i ==> name_key((#[trigger] entries@[k])@) != name_key(current@),
            decreases entries.len() - i,
        {
            if let Some(k) = name_key_of(entries[i].as_str()) {
                if same_text(k.as_str(), key.as_str()) {
                    assert(name_key(entries@[i as int]@) == name_key(current@));
                    return Some(Folder { entries, current: i });
                }
            }
            i += 1;
        }
        None
    }

    /// The number of sibling images.
    pub fn len(&self) -> (n: usize)
        ensures
            n == self.paths().len(),
            n > 0,
    {
        proof {
            use_type_invariant(self);
        }
        self.entries.len()
    }

    /// The 1-based position of the current image, for the "3 / 27" read-out.
    pub fn position(&self) -> (n: usize)
        ensures
            n == self.cursor() + 1,
            1 <= n <= self.paths().len(),
    {
        proof {
            use_type_invariant(self);
        }
        self.current + 1
    }

    /// Move the cursor by `delta`, wrapping at both ends, and give the new current path.
    pub fn advance(&mut self, delta: isize) -> (path: String)
        ensures
            final(self).paths() == old(self).paths(),
            final(self).cursor() == wrapped(old(self).cursor(), delta as int, old(self).paths().len() as int),
            0 <= final(self).cursor() < final(self).paths().len(),
            path == final(self).paths()[final(self).cursor()],
    {
        proof {
            use_type_invariant(&*self);
        }
        let n = self.entries.len();
        let step: usize = if delta >= 0 {
            (delta as usize) % n
        } else {
            n - 1 - ((-(delta + 1)) as usize) % n
        };
        let at: usize = if self.current >= n - step {
            self.current - (n - step)
        } else {
            self.current + step
        };
        proof {
            lemma_wrapped(self.current as int, delta as int, n as int, step as int, at as int);
        }
        self.current = at;
        self.entries[at].clone()
    }
}

proof fn lemma_wrapped(i: int, delta: int, n: int, step: int, at: int)
    requires
        0 <= i < n,
        delta >= 0 ==> step == delta % n,
        delta < 0 ==> step == n - 1 - (-(delta + 1)) % n,
        at == (if i >= n - step {
            i - (n - step)
        } else {
            i + step
        }),
    ensures
        at == wrapped(i, delta, n),
        0 <= at < n,
{
    let m = if delta >= 0 {
        delta
    } else {
        -(delta + 1)
    };
    vstd::arithmetic::div_mod::lemma_fundamental_div_mod(m, n);
    let q = m / n;
    let c = i + delta - at;
    if delta >= 0 {
        let k = if i >= n - step {
            q + 1
        } else {
            q
        };
        assert(c == k * n) by (nonlinear_arith)
            requires
                m == n * q + step,
                delta == m,
                k == q + 1 ==> c == delta + n - step,
                k == q ==> c == delta - step,
                c == i + delta - at,
                k == q || k == q + 1,
        ;
        vstd::arithmetic::div_mod::lemma_fundamental_div_mod_converse(i + delta, n, k, at);
    } else {
        let k = if i >= n - step {
            -q
        } else {
            -q - 1
        };
        assert(c == k * n) by (nonlinear_arith)
            requires
                m == n * q + (n - 1 - step),
                delta == -m - 1,
                k == -q ==> c == delta + n - step,
                k == -q - 1 ==> c == delta - step,
                k == -q || k == -q - 1,
        ;
        vstd::arithmetic::div_mod::lemma_fundamental_div_mod_converse(i + delta, n, k, at);
    }
}

/// Paging by some amount and back by the same amount returns to the same entry.
pub proof fn law_advance_undoes(i: int, delta: int, n: int)
    requires
        0 <= i < n,
    ensures
        wrapped(wrapped(i, delta, n), -delta, n) == i,
{
    vstd::arithmetic::div_mod::lemma_add_mod_noop(i + delta, -delta, n);
    vstd::arithmetic::div_mod::lemma_add_mod_noop(wrapped(i, delta, n), -delta, n);
    vstd::arithmetic::div_mod::lemma_mod_twice(i + delta, n);
    vstd::arithmetic::div_mod::lemma_small_mod(i as nat, n as nat);
}

/// Paging adds up: two moves are one move by their sum.
pub proof fn law_advance_adds(i: int, d: int, e: int, n: int)
    requires
        0 <= i < n,
    ensures
        wrapped(wrapped(i, d, n), e, n) == wrapped(i, d + e, n),
{
    vstd::arithmetic::div_mod::lemma_add_mod_noop(i + d, e, n);
    vstd::arithmetic::div_mod::lemma_add_mod_noop(wrapped(i, d, n), e, n);
    vstd::arithmetic::div_mod::lemma_mod_twice(i + d, n);
}

/// Paging forward one at a time reaches every entry, and comes back to the start after a full
/// round.
pub proof fn law_advance_covers(i: int, target: int, n: int)
    requires
        0 <= i < n,
        0 <= target < n,
    ensures
        wrapped(i, n, n) == i,
        wrapped(i, (target - i) % n, n) == target,
        0 <= (target - i) % n < n,
{
    vstd::arithmetic::div_mod::lemma_mod_multiples_vanish(1, i, n);
    vstd::arithmetic::div_mod::lemma_small_mod(i as nat, n as nat);
    vstd::arithmetic::div_mod::lemma_add_mod_noop(i, target - i, n);
    vstd::arithmetic::div_mod::lemma_add_mod_noop(i, (target - i) % n, n);
    vstd::arithmetic::div_mod::lemma_mod_twice(target - i, n);
    vstd::arithmetic::div_mod::lemma_small_mod(target as nat, n as nat);
}

/// A file without an extension is no image, and the case of an extension counts for nothing.
pub proof fn law_extension_case_does_not_count(e: Seq<char>, f: Seq<char>)
    ensures
        !is_image_ext(None),
        ascii_lower_seq(e) == ascii_lower_seq(f) ==> is_image_ext(Some(e)) == is_image_ext(Some(f)),
        forall|k: int|
            0 <= k < image_exts().len() && ascii_lower_seq(e) == #[trigger] image_exts()[k]
                ==> is_image_ext(Some(e)),
{
}

/// A scan lists every image file of the folder exactly once, and nothing else: no directory, no
/// file of another kind.
pub proof fn law_scan_lists_each_image_once(order: Seq<usize>, listing: Seq<Listed>, i: usize)
    requires
        is_scan_order(order, listing),
        i < listing.len(),
    ensures
        order.contains(i) <==> is_sibling(listing[i as int]),
        order.no_duplicates(),
        listing[i as int].is_dir ==> !order.contains(i),
        !is_image_ext(path_extension(listing[i as int].path@)) ==> !order.contains(i),
        !listing[i as int].is_dir && is_image_ext(path_extension(listing[i as int].path@))
            && path_file_name(listing[i as int].path@) is Some ==> order.contains(i),
{
    assert forall|k: int, l: int| 0 <= k < order.len() && 0 <= l < order.len() && k != l implies
        order[k] != order[l] by {
        let (p, q) = if k < l {
            (k, l)
        } else {
            (l, k)
        };
        assert(listed_before(listed_names(listing), order[p] as int, order[q] as int));
        crate::natural::law_natural_order_reverses(
            listed_names(listing)[order[p] as int],
            listed_names(listing)[order[q] as int],
        );
    }
}

} // verus!
