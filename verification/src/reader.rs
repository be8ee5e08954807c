//! Listing the objects of a category.
//!
//! The caller walks the category's directory and reads the files; this module
//! says which of the walked entries are objects, decodes what was read, leaves
//! out what does not decode, and puts the rest in listing order.

use crate::address::Category;
use crate::codec::{decode_read, read_decoding, DecodeError, DecodeStage, FileRead};
use crate::json::{Json, JsonValue};
use crate::order::{text_before, text_lt};
use crate::recency::{
    is_newest_first, lemma_newer_prefix_len_is, lemma_newest_first_is_ordered,
    lemma_newest_first_is_the_only_one, lemma_newest_first_permutes, lemma_unstamped_come_last,
    newer_prefix_len, newest_first, with_stamp,
};
use vstd::prelude::*;

verus! {

/// Depth, below the category's directory, at which the object files lie: one
/// level of fan-out directories, then the files.
pub const OBJECT_DEPTH: usize = 2;

/// One entry that a walk of a category's directory came across.
#[derive(Debug, PartialEq, Eq)]
pub struct WalkEntry {
    /// Levels below the directory that was walked; the directory itself is 0.
    pub depth: usize,
    /// Whether the entry is a regular file.
    pub is_file: bool,
    /// Where the entry lies.
    pub path: String,
}

impl WalkEntry {
    /// An entry is an object when it is a regular file at the objects' depth.
    pub open spec fn is_object_spec(self) -> bool {
        self.depth == OBJECT_DEPTH && self.is_file
    }

    pub fn is_object(&self) -> (r: bool)
        ensures
            r == self.is_object_spec(),
    {
        self.depth == OBJECT_DEPTH && self.is_file
    }
}

/// The test "this entry is an object".
pub open spec fn is_object_entry() -> spec_fn(WalkEntry) -> bool {
    |entry: WalkEntry| entry.is_object_spec()
}

/// The path of an entry.
pub open spec fn path_of_entry() -> spec_fn(WalkEntry) -> String {
    |entry: WalkEntry| entry.path
}

/// The entries of a walk that are objects, in the order of the walk.
pub open spec fn object_entries(entries: Seq<WalkEntry>) -> Seq<WalkEntry> {
    entries.filter(is_object_entry())
}

/// The objects among what a probe of the category's directory gave; none
/// where the directory is absent.
pub open spec fn objects_found(walk: Option<Vec<WalkEntry>>) -> Seq<WalkEntry> {
    match walk {
        Some(entries) => object_entries(entries@),
        None => Seq::empty(),
    }
}

/// Of no entries none is an object.
proof fn lemma_no_entries(entries: Seq<WalkEntry>)
    ensures
        object_entries(entries.take(0)) == Seq::<WalkEntry>::empty(),
{
    reveal(Seq::filter);
    assert(entries.take(0) =~= Seq::<WalkEntry>::empty());
    assert(Seq::<WalkEntry>::empty().filter(is_object_entry()) =~= Seq::<WalkEntry>::empty());
}

/// The objects among the first `i + 1` entries are those among the first
/// `i`, and the entry at `i` if it is one.
proof fn lemma_next_entry(entries: Seq<WalkEntry>, i: int)
    requires
        0 <= i < entries.len(),
    ensures
        object_entries(entries.take(i + 1)) == if entries[i].is_object_spec() {
            object_entries(entries.take(i)).push(entries[i])
        } else {
            object_entries(entries.take(i))
        },
{
    assert(entries.take(i + 1) =~= entries.take(i).push(entries[i]));
    entries.take(i).lemma_filter_push(entries[i], is_object_entry());
}

/// Number of objects in a category: the object entries of the walk, whether
/// or not they would decode; zero where the directory is absent.
pub fn count_objects(walk: &Option<Vec<WalkEntry>>) -> (n: usize)
    ensures
        n == objects_found(*walk).len(),
{
    match walk {
        None => 0,
        Some(entries) => {
            let mut n: usize = 0;
            let mut i: usize = 0;
            proof {
                lemma_no_entries(entries@);
            }
            while i < entries.len()
                invariant
                    i <= entries.len(),
                    n <= i,
                    n == object_entries(entries@.take(i as int)).len(),
                decreases entries.len() - i,
            {
                proof {
                    lemma_next_entry(entries@, i as int);
                }
                if entries[i].is_object() {
                    n = n + 1;
                }
                i = i + 1;
            }
            proof {
                assert(entries@.take(i as int) =~= entries@);
            }
            n
        },
    }
}

/// Paths of the files to read for a listing: those of the object entries, in
/// the order of the walk; none where the directory is absent.
pub fn object_paths(walk: &Option<Vec<WalkEntry>>) -> (paths: Vec<String>)
    ensures
        paths@ == objects_found(*walk).map_values(path_of_entry()),
{
    let mut paths: Vec<String> = Vec::new();
    match walk {
        None => {
            proof {
                assert(paths@ =~= Seq::<WalkEntry>::empty().map_values(path_of_entry()));
            }
        },
        Some(entries) => {
            let mut i: usize = 0;
            proof {
                lemma_no_entries(entries@);
                assert(paths@ =~= Seq::<WalkEntry>::empty().map_values(path_of_entry()));
            }
            while i < entries.len()
                invariant
                    i <= entries.len(),
                    paths@ == object_entries(entries@.take(i as int)).map_values(path_of_entry()),
                decreases entries.len() - i,
            {
                proof {
                    lemma_next_entry(entries@, i as int);
                    object_entries(entries@.take(i as int)).lemma_push_map_commute(
                        path_of_entry(),
                        entries@[i as int],
                    );
                }
                if entries[i].is_object() {
                    paths.push(entries[i].path.clone());
                }
                i = i + 1;
            }
            proof {
                assert(entries@.take(i as int) =~= entries@);
            }
        },
    }
    paths
}

/// The text of the member `name`; empty where `value` has no such member or
/// the member is not a text.
pub open spec fn text_member(value: JsonValue, name: Seq<char>) -> Seq<char> {
    match value.member(name) {
        Some(member) => match member.as_text() {
            Some(text) => text,
            None => Seq::empty(),
        },
        None => Seq::empty(),
    }
}

/// The timestamp by which an object is listed: for a claim, the creation
/// time in its metadata; for a verification, its own timestamp. An object
/// without the field has the empty timestamp.
pub open spec fn stamp_spec(value: JsonValue, category: Category) -> Seq<char> {
    match category {
        Category::Claims => match value.member("metadata"@) {
            Some(metadata) => text_member(metadata, "created_at"@),
            None => Seq::empty(),
        },
        Category::Verifications => text_member(value, "timestamp"@),
    }
}

/// `stamp_spec` for one category, as a function of the object.
pub open spec fn stamp_of(category: Category) -> spec_fn(JsonValue) -> Seq<char> {
    |value: JsonValue| stamp_spec(value, category)
}

/// What a sequence of objects stands for, object by object.
pub open spec fn views(objects: Seq<Json>) -> Seq<JsonValue> {
    objects.map_values(|object: Json| object@)
}

/// The text of the member `name` of `value`, or the empty text.
pub fn text_of_member<'a>(value: &'a Json, name: &str) -> (r: &'a str)
    ensures
        r@ == text_member(value@, name@),
{
    proof {
        reveal_strlit("");
    }
    match value.get(name) {
        Some(member) => match member.as_str() {
            Some(text) => text,
            None => "",
        },
        None => "",
    }
}

/// The timestamp by which `value` is listed in `category`.
pub fn stamp<'a>(value: &'a Json, category: Category) -> (r: &'a str)
    ensures
        r@ == stamp_spec(value@, category),
{
    proof {
        reveal_strlit("");
    }
    match category {
        Category::Claims => match value.get("metadata") {
            Some(metadata) => text_of_member(metadata, "created_at"),
            None => "",
        },
        Category::Verifications => text_of_member(value, "timestamp"),
    }
}

/// Where `item` goes in a listing that is already in order: behind the
/// objects that are newer than it.
fn insertion_point(sorted: &Vec<Json>, item: &Json, category: Category) -> (at: usize)
    ensures
        at == newer_prefix_len(views(sorted@), stamp_of(category), stamp_spec(item@, category)),
        at <= sorted.len(),
{
    let wanted = stamp(item, category);
    let ghost listed = views(sorted@);
    let mut at: usize = 0;
    while at < sorted.len() && text_before(wanted, stamp(&sorted[at], category))
        invariant
            at <= sorted.len(),
            listed == views(sorted@),
            wanted@ == stamp_spec(item@, category),
            forall|j: int| 0 <= j < at ==> text_lt(wanted@, stamp_of(category)(#[trigger] listed[j])),
        decreases sorted.len() - at,
    {
        at = at + 1;
    }
    proof {
        lemma_newer_prefix_len_is(listed, stamp_of(category), wanted@, at as int);
    }
    at
}

/// Puts objects in listing order: newest first by their timestamp, objects
/// with the same timestamp in the order given.
pub fn sort_newest_first(objects: Vec<Json>, category: Category) -> (sorted: Vec<Json>)
    ensures
        views(sorted@) == newest_first(views(objects@), stamp_of(category)),
{
    let ghost given = views(objects@);
    let ghost key = stamp_of(category);
    let mut pending = objects;
    let mut sorted: Vec<Json> = Vec::new();
    proof {
        assert(given.skip(given.len() as int) =~= Seq::<JsonValue>::empty());
        assert(views(sorted@) =~= Seq::<JsonValue>::empty());
    }
    while pending.len() > 0
        invariant
            pending.len() <= given.len(),
            key == stamp_of(category),
            views(pending@) == given.take(pending.len() as int),
            views(sorted@) == newest_first(given.skip(pending.len() as int), key),
        decreases pending.len(),
    {
        let ghost before = pending@;
        let ghost listed = sorted@;
        let ghost n = pending.len() as int;
        let item = pending.pop().unwrap();
        let at = insertion_point(&sorted, &item, category);
        sorted.insert(at, item);
        proof {
            let tail = given.skip(n - 1);
            assert(views(before)[n - 1] == item@);
            assert(tail[0] == item@);
            assert(tail.drop_first() =~= given.skip(n));
            assert(views(pending@) =~= given.take(n - 1));
            assert(views(listed.insert(at as int, item)) =~= views(listed).insert(
                at as int,
                item@,
            ));
        }
    }
    proof {
        assert(given.skip(0) =~= given);
    }
    sorted
}

/// A file that was left out of a listing, and why.
#[derive(Debug, PartialEq, Eq)]
pub struct Skipped {
    /// Position of the file among those that were read.
    pub index: usize,
    pub error: DecodeError,
}

/// A listing: the objects in order, and the files that were left out.
#[derive(Debug, PartialEq, Eq)]
pub struct Listing {
    pub objects: Vec<Json>,
    pub skipped: Vec<Skipped>,
}

/// The value that a read decodes to, if it decodes.
pub open spec fn decoded_value(read: FileRead) -> Option<JsonValue> {
    match read_decoding(read) {
        Ok(value) => Some(value),
        Err(_) => None,
    }
}

/// `decoded_value`, as a function of the read.
pub open spec fn decoding() -> spec_fn(FileRead) -> Option<JsonValue> {
    |read: FileRead| decoded_value(read)
}

/// The values of the reads that decode, in the order of the reads.
pub open spec fn decoded_values(reads: Seq<FileRead>) -> Seq<JsonValue> {
    reads.filter_map(decoding())
}

/// The listing that a sequence of reads gives.
pub open spec fn listing_spec(reads: Seq<FileRead>, category: Category) -> Seq<JsonValue> {
    newest_first(decoded_values(reads), stamp_of(category))
}

/// `report` says of the read at its index at which stage it failed, and for
/// a file that could not be read it hands on the reader's reason.
pub open spec fn reports_failure(report: Skipped, reads: Seq<FileRead>) -> bool {
    &&& report.index < reads.len()
    &&& read_decoding(reads[report.index as int]) == Err::<JsonValue, DecodeStage>(
        report.error.stage,
    )
    &&& reads[report.index as int] matches FileRead::Unreadable(reason) ==> report.error.cause
        == reason
}

/// `skipped` names the reads that do not decode: each of them once, in the
/// order of the reads, with the stage at which it failed.
pub open spec fn reports_failures(skipped: Seq<Skipped>, reads: Seq<FileRead>) -> bool {
    &&& forall|k: int| 0 <= k < skipped.len() ==> reports_failure(#[trigger] skipped[k], reads)
    &&& forall|k: int, l: int|
        0 <= k < l < skipped.len() ==> (#[trigger] skipped[k]).index < (#[trigger] skipped[l]).index
    &&& forall|i: int|
        0 <= i < reads.len() && (#[trigger] read_decoding(reads[i])) is Err ==> exists|k: int|
            0 <= k < skipped.len() && (#[trigger] skipped[k]).index == i
}

/// Where every read decodes, as many values come out as reads went in.
pub proof fn lemma_all_decode(reads: Seq<FileRead>)
    requires
        forall|i: int| 0 <= i < reads.len() ==> read_decoding(#[trigger] reads[i]) is Ok,
    ensures
        decoded_values(reads).len() == reads.len(),
    decreases reads.len(),
{
    if reads.len() > 0 {
        let init = reads.drop_last();
        assert forall|i: int| 0 <= i < init.len() implies read_decoding(#[trigger] init[i]) is Ok by {
            assert(init[i] == reads[i]);
        }
        lemma_all_decode(init);
    }
}

/// Where one read of many does not decode and every other does, the values
/// that come out are one fewer than the reads.
pub proof fn lemma_one_failure_drops_one(reads: Seq<FileRead>, bad: int)
    requires
        0 <= bad < reads.len(),
        read_decoding(reads[bad]) is Err,
        forall|i: int|
            0 <= i < reads.len() && i != bad ==> read_decoding(#[trigger] reads[i]) is Ok,
    ensures
        decoded_values(reads).len() == reads.len() - 1,
    decreases reads.len(),
{
    let init = reads.drop_last();
    if bad == reads.len() - 1 {
        assert forall|i: int| 0 <= i < init.len() implies read_decoding(#[trigger] init[i]) is Ok by {
            assert(init[i] == reads[i]);
        }
        lemma_all_decode(init);
    } else {
        assert(init[bad] == reads[bad]);
        assert forall|i: int| 0 <= i < init.len() && i != bad implies read_decoding(
            #[trigger] init[i],
        ) is Ok by {
            assert(init[i] == reads[i]);
        }
        lemma_one_failure_drops_one(init, bad);
    }
}

/// A listing of reads of which one is damaged holds all the others: the
/// damaged one is left out, and nothing else is.
pub proof fn lemma_one_damaged_object_is_left_out(
    reads: Seq<FileRead>,
    category: Category,
    bad: int,
)
    requires
        0 <= bad < reads.len(),
        read_decoding(reads[bad]) is Err,
        forall|i: int|
            0 <= i < reads.len() && i != bad ==> read_decoding(#[trigger] reads[i]) is Ok,
    ensures
        listing_spec(reads, category).len() == reads.len() - 1,
{
    lemma_one_failure_drops_one(reads, bad);
    lemma_newest_first_permutes(decoded_values(reads), stamp_of(category));
}

/// A listing holds exactly the values that decode, each as often as it was
/// read.
pub proof fn lemma_listing_holds_what_decodes(reads: Seq<FileRead>, category: Category)
    ensures
        listing_spec(reads, category).to_multiset() == decoded_values(reads).to_multiset(),
        listing_spec(reads, category).len() == decoded_values(reads).len(),
{
    lemma_newest_first_permutes(decoded_values(reads), stamp_of(category));
}

/// A listing is the only arrangement of the values that decode which is
/// newest first and keeps the values of each timestamp in the order in which
/// they were read.
pub proof fn lemma_listing_is_decided(
    listing: Seq<JsonValue>,
    reads: Seq<FileRead>,
    category: Category,
)
    requires
        is_newest_first(listing, stamp_of(category)),
        forall|stamp: Seq<char>| #[trigger]
            with_stamp(listing, stamp_of(category), stamp)
                == with_stamp(decoded_values(reads), stamp_of(category), stamp),
    ensures
        listing == listing_spec(reads, category),
{
    lemma_newest_first_is_the_only_one(
        listing,
        decoded_values(reads),
        stamp_of(category),
    );
}

/// A listing is in order: no object comes before one with a greater
/// timestamp, and an object without a timestamp comes after every object
/// that has one.
pub proof fn lemma_listing_is_newest_first(reads: Seq<FileRead>, category: Category)
    ensures
        is_newest_first(listing_spec(reads, category), stamp_of(category)),
        forall|i: int, j: int|
            0 <= i < listing_spec(reads, category).len() && 0 <= j < listing_spec(
                reads,
                category,
            ).len() && stamp_spec(#[trigger] listing_spec(reads, category)[i], category).len() == 0
                && stamp_spec(#[trigger] listing_spec(reads, category)[j], category).len() > 0
                ==> j < i,
{
    let values = decoded_values(reads);
    let key = stamp_of(category);
    lemma_newest_first_is_ordered(values, key);
    lemma_newest_first_permutes(values, key);
    assert forall|i: int, j: int|
        0 <= i < listing_spec(reads, category).len() && 0 <= j < listing_spec(
            reads,
            category,
        ).len() && stamp_spec(#[trigger] listing_spec(reads, category)[i], category).len() == 0
            && stamp_spec(#[trigger] listing_spec(reads, category)[j], category).len()
            > 0 implies j < i by {
        lemma_unstamped_come_last(values, key, i, j);
    }
}

/// Decodes every read. What decodes is kept, in the order of the reads; what
/// does not is reported and otherwise left out.
pub fn decode_all(reads: &Vec<FileRead>) -> (r: (Vec<Json>, Vec<Skipped>))
    ensures
        views(r.0@) == decoded_values(reads@),
        reports_failures(r.1@, reads@),
        r.0.len() + r.1.len() == reads.len(),
{
    let mut objects: Vec<Json> = Vec::new();
    let mut skipped: Vec<Skipped> = Vec::new();
    let mut i: usize = 0;
    proof {
        assert(reads@.take(0) =~= Seq::<FileRead>::empty());
        assert(views(objects@) =~= Seq::<JsonValue>::empty());
    }
    while i < reads.len()
        invariant
            i <= reads.len(),
            views(objects@) == decoded_values(reads@.take(i as int)),
            reports_failures(skipped@, reads@.take(i as int)),
            objects.len() + skipped.len() == i,
        decreases reads.len() - i,
    {
        let ghost kept = objects@;
        let ghost left_out = skipped@;
        proof {
            reads@.lemma_filter_map_take_succ(decoding(), i as int);
        }
        match decode_read(&reads[i]) {
            Ok(value) => {
                objects.push(value);
                proof {
                    assert(views(kept.push(value)) =~= views(kept).push(value@));
                    assert(views(kept).push(value@) =~= views(kept) + seq![value@]);
                    assert forall|k: int| 0 <= k < left_out.len() implies reports_failure(
                        #[trigger] left_out[k],
                        reads@.take(i + 1),
                    ) && left_out[k].index < i by {
                        assert(reports_failure(left_out[k], reads@.take(i as int)));
                    }
                    assert forall|j: int|
                        0 <= j < i + 1 && (#[trigger] read_decoding(
                            reads@.take(i + 1)[j],
                        )) is Err implies exists|k: int|
                        0 <= k < skipped@.len() && (#[trigger] skipped@[k]).index == j by {
                        assert(reads@.take(i + 1)[j] == reads@.take(i as int)[j]);
                    }
                }
            },
            Err(error) => {
                skipped.push(Skipped { index: i, error });
                proof {
                    let entry = Skipped { index: i, error };
                    assert(views(kept) + Seq::<JsonValue>::empty() =~= views(kept));
                    assert forall|k: int| 0 <= k < left_out.len() implies reports_failure(
                        #[trigger] left_out[k],
                        reads@.take(i + 1),
                    ) && left_out[k].index < i by {
                        assert(reports_failure(left_out[k], reads@.take(i as int)));
                    }
                    assert(skipped@[left_out.len() as int] == entry);
                    assert(reports_failure(entry, reads@.take(i + 1)));
                    assert forall|j: int|
                        0 <= j < i + 1 && (#[trigger] read_decoding(
                            reads@.take(i + 1)[j],
                        )) is Err implies exists|k: int|
                        0 <= k < skipped@.len() && (#[trigger] skipped@[k]).index == j by {
                        if j < i {
                            assert(reads@.take(i + 1)[j] == reads@.take(i as int)[j]);
                            let k = choose|k: int|
                                0 <= k < left_out.len() && (#[trigger] left_out[k]).index == j;
                            assert(skipped@[k] == left_out[k]);
                        } else {
                            assert(skipped@[left_out.len() as int].index == j);
                        }
                    }
                }
            },
        }
        i = i + 1;
    }
    proof {
        assert(reads@.take(i as int) =~= reads@);
    }
    (objects, skipped)
}

/// Lists what was read of a category: every read that decodes, newest first,
/// and a report of the reads that were left out. A read that does not decode
/// never makes the listing fail.
pub fn list_objects(reads: &Vec<FileRead>, category: Category) -> (listing: Listing)
    ensures
        views(listing.objects@) == listing_spec(reads@, category),
        reports_failures(listing.skipped@, reads@),
        listing.objects.len() + listing.skipped.len() == reads.len(),
{
    let (objects, skipped) = decode_all(reads);
    proof {
        lemma_newest_first_permutes(views(objects@), stamp_of(category));
    }
    let sorted = sort_newest_first(objects, category);
    Listing { objects: sorted, skipped }
}

} // verus!
