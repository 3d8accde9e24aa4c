//! What is known of the images behind the store: which images there are, and what
//! an inspection of one says.

use vstd::prelude::*;
use vstd::string::StringExecFns;

use crate::store;
use crate::store::StoreTemplateRecord;
use crate::text;

verus! {

// ----------------------------------------------------------------------- types

/// What the container engine says of an image.
pub struct InspectResult {
    pub id: String,
    /// The size on disk, in bytes.
    pub size: u64,
    /// The digests under which registries know the image.
    pub repo_digests: Vec<String>,
}

/// What a client is told of an image.
#[derive(Debug)]
pub struct ImageMeta {
    /// The image as it was asked for, such as `registry/repo:tag`.
    pub image: String,
    /// The uncompressed size on disk, in bytes.
    pub size_bytes: u64,
    /// The same in tenths of a MiB, rounded to the nearest.
    pub size_tenths: u64,
    /// The digest in full, such as `registry/repo@sha256:abc`; none where the image
    /// has no remote digest yet.
    pub digest: Option<String>,
    /// The part of the digest behind the `@`, such as `sha256:abc`.
    pub digest_short: Option<String>,
}

/// What a client is told of all images.
#[derive(Debug)]
pub struct StoreMeta {
    pub images: Vec<ImageMeta>,
}

/// What an [`ImageMeta`] holds.
pub struct ImageModel {
    pub image: Seq<char>,
    pub size_bytes: u64,
    pub size_tenths: int,
    pub digest: Option<Seq<char>>,
    pub digest_short: Option<Seq<char>>,
}

impl ImageMeta {
    pub open spec fn model(self) -> ImageModel {
        ImageModel {
            image: self.image@,
            size_bytes: self.size_bytes,
            size_tenths: self.size_tenths as int,
            digest: text::opt_text(self.digest),
            digest_short: text::opt_text(self.digest_short),
        }
    }
}

// ------------------------------------------------------------------ inspection

/// The arguments that have the container engine pull an image.
pub fn pull_args(image: &str) -> (r: Vec<String>)
    ensures
        text::texts(r@) == seq!["pull"@, "--quiet"@, image@],
{
    let r = vec![
        String::from_str("pull"),
        String::from_str("--quiet"),
        String::from_str(image),
    ];
    assert(text::texts(r@) =~= seq!["pull"@, "--quiet"@, image@]);
    r
}

/// The arguments that have the container engine describe an image.
pub fn inspect_args(image: &str) -> (r: Vec<String>)
    ensures
        text::texts(r@) == seq!["image"@, "inspect"@, "--format"@, "{{json .}}"@, image@],
{
    let r = vec![
        String::from_str("image"),
        String::from_str("inspect"),
        String::from_str("--format"),
        String::from_str("{{json .}}"),
        String::from_str(image),
    ];
    assert(text::texts(r@) =~= seq!["image"@, "inspect"@, "--format"@, "{{json .}}"@, image@]);
    r
}

/// The JSON object in the answer of the container engine. The answer may be the
/// object itself or a list around it.
pub open spec fn inspected(answer: Seq<u8>) -> Seq<char> {
    let raw = text::trimmed(text::lossy(answer));
    if raw.len() > 0 && raw[0] == '[' {
        text::trimmed(text::trim_end_char(text::trim_start_char(raw, '['), ']'))
    } else {
        raw
    }
}

/// The JSON object in the answer of the container engine.
pub fn inspect_json(answer: &[u8]) -> (r: String)
    ensures
        r@ == inspected(answer@),
{
    let all = text::lossy_text(answer);
    let raw = text::trim(all.as_str());
    proof {
        reveal_strlit("[");
        assert("["@ =~= seq!['[']);
        if raw@.len() > 0 {
            assert(raw@.take(1) =~= seq![raw@[0]]);
        }
        assert(seq!['['][0] == '[');
    }
    if text::starts_with(raw, "[") {
        String::from_str(
            text::trim(text::trim_end_matches(text::trim_start_matches(raw, '['), ']')),
        )
    } else {
        String::from_str(raw)
    }
}

/// A size in tenths of a MiB, rounded to the nearest, half up.
pub open spec fn tenths_of_mib(size: u64) -> int {
    (size * 10 + 0x80000) / 0x100000
}

fn size_in_tenths(size: u64) -> (r: u64)
    ensures
        r == tenths_of_mib(size),
{
    ((size as u128 * 10 + 0x80000) / 0x100000) as u64
}

/// The part of a text before the first `c`, or all of it.
pub open spec fn before(s: Seq<char>, c: char) -> Seq<char> {
    match text::split_first(s, c) {
        Some((head, _)) => head,
        None => s,
    }
}

fn text_before<'a>(s: &'a str, c: char) -> (r: &'a str)
    ensures
        r@ == before(s@, c),
{
    match text::split_once(s, c) {
        Some((head, _)) => head,
        None => s,
    }
}

/// The place of the first digest from that registry, or the number of digests.
pub open spec fn digest_place(digests: Seq<Seq<char>>, registry: Seq<char>) -> int
    decreases digests.len(),
{
    if digests.len() == 0 || registry.is_prefix_of(digests[0]) {
        0
    } else {
        1 + digest_place(digests.drop_first(), registry)
    }
}

/// The digest of an image: the first from the registry that the image is named by,
/// else the first of all.
pub open spec fn digest_of(digests: Seq<Seq<char>>, image: Seq<char>) -> Option<Seq<char>> {
    let place = digest_place(digests, before(image, '/'));
    if place < digests.len() {
        Some(digests[place])
    } else if digests.len() > 0 {
        Some(digests[0])
    } else {
        None
    }
}

/// The part of a digest between its first `@` and the next, or the end.
pub open spec fn short_digest(digest: Seq<char>) -> Option<Seq<char>> {
    match text::split_first(digest, '@') {
        Some((_, rest)) => Some(before(rest, '@')),
        None => None,
    }
}

/// What a client is told of an image, from what the container engine said of it.
pub open spec fn image_meta(image: Seq<char>, size: u64, digests: Seq<Seq<char>>) -> ImageModel {
    let digest = digest_of(digests, image);
    ImageModel {
        image,
        size_bytes: size,
        size_tenths: tenths_of_mib(size),
        digest,
        digest_short: match digest {
            Some(digest) => short_digest(digest),
            None => None,
        },
    }
}

fn find_digest(digests: &Vec<String>, registry: &str) -> (r: usize)
    ensures
        r == digest_place(text::texts(digests@), registry@),
        r <= digests@.len(),
{
    let ghost all = text::texts(digests@);
    let mut i: usize = 0;
    assert(all.skip(0) =~= all);
    while i < digests.len()
        invariant
            i <= digests@.len() == all.len(),
            all == text::texts(digests@),
            digest_place(all, registry@) == i + digest_place(all.skip(i as int), registry@),
        decreases digests.len() - i,
    {
        assert(all.skip(i as int).drop_first() =~= all.skip(i + 1));
        assert(all.skip(i as int)[0] == digests@[i as int]@);
        if text::starts_with(digests[i].as_str(), registry) {
            return i;
        }
        i += 1;
    }
    i
}

/// What a client is told of an image, from what the container engine said of it.
pub fn describe_image(image: &str, info: &InspectResult) -> (r: ImageMeta)
    ensures
        r.model() == image_meta(image@, info.size, text::texts(info.repo_digests@)),
{
    let place: usize = find_digest(&info.repo_digests, text_before(image, '/'));
    let digest = if place < info.repo_digests.len() {
        Some(info.repo_digests[place].clone())
    } else if info.repo_digests.len() > 0 {
        Some(info.repo_digests[0].clone())
    } else {
        None
    };
    let digest_short = match &digest {
        Some(digest) => match text::split_once(digest.as_str(), '@') {
            Some((_, rest)) => Some(String::from_str(text_before(rest, '@'))),
            None => None,
        },
        None => None,
    };
    ImageMeta {
        image: String::from_str(image),
        size_bytes: info.size,
        size_tenths: size_in_tenths(info.size),
        digest,
        digest_short,
    }
}

// ------------------------------------------------------------------ the images

/// The images of the catalog that is shown, each by its name for the China region.
pub open spec fn catalog_images(rows: Option<Seq<store::RecordModel>>) -> Seq<Seq<char>> {
    store::shown_catalog(rows).map_values(|item: store::ItemModel| item.image_cn)
}

/// The images to inspect: those of the rows of the database, or of the built-in
/// catalog where there are none to be had.
pub fn collect_store_images(rows: Option<Vec<StoreTemplateRecord>>) -> (r: Vec<String>)
    ensures
        text::texts(r@) == catalog_images(store::rows_model(rows)),
{
    let ghost given = store::rows_model(rows);
    let items = store::list_store_catalog(rows).items;
    let ghost all = items@;
    assert(store::items_model(all) == store::shown_catalog(given));
    let mut out: Vec<String> = Vec::new();
    for item in iter: items
        invariant
            iter.seq() == all,
            out@.len() == iter.index(),
            forall|k: int| 0 <= k < out@.len() ==> (#[trigger] out@[k])@ == all[k].image_cn@,
    {
        out.push(item.image_cn);
    }
    assert forall|k: int| 0 <= k < out@.len() implies #[trigger] text::texts(out@)[k]
        == catalog_images(given)[k] by {
        assert(store::items_model(all)[k] == all[k].model());
    }
    assert(store::items_model(all).len() == all.len());
    assert(text::texts(out@) =~= catalog_images(given));
    out
}

/// Those that are there, in order.
pub open spec fn present(found: Seq<Option<ImageModel>>) -> Seq<ImageModel>
    decreases found.len(),
{
    if found.len() == 0 {
        seq![]
    } else {
        match found.last() {
            Some(image) => present(found.drop_last()).push(image),
            None => present(found.drop_last()),
        }
    }
}

/// What is known of one image, where it is there.
pub open spec fn found_model(found: Option<ImageMeta>) -> Option<ImageModel> {
    match found {
        Some(image) => Some(image.model()),
        None => None,
    }
}

/// The answer from the inspection of each image. An image that is not there is left
/// out.
pub fn get_store_meta(found: Vec<Option<ImageMeta>>) -> (r: StoreMeta)
    ensures
        r.images@.map_values(|image: ImageMeta| image.model()) == present(
            found@.map_values(|image: Option<ImageMeta>| found_model(image)),
        ),
{
    let ghost all = found@.map_values(|image: Option<ImageMeta>| found_model(image));
    let ghost given = found@;
    let mut images: Vec<ImageMeta> = Vec::new();
    assert(all.take(0) =~= seq![]);
    for image in iter: found
        invariant
            iter.seq() == given,
            all == given.map_values(|image: Option<ImageMeta>| found_model(image)),
            images@.map_values(|image: ImageMeta| image.model()) =~= present(
                all.take(iter.index() as int),
            ),
    {
        let ghost n = iter.index() as int;
        let ghost earlier = images@;
        assert(all.take(n + 1).drop_last() =~= all.take(n));
        assert(all.take(n + 1).last() == found_model(image));
        if let Some(image) = image {
            images.push(image);
            assert(images@.map_values(|image: ImageMeta| image.model()) =~= earlier.map_values(
                |image: ImageMeta| image.model(),
            ).push(image.model()));
        }
    }
    assert(all.take(all.len() as int) =~= all);
    StoreMeta { images }
}

// ------------------------------------------------------------------------ laws

/// The object in the answer of the container engine is found, whether it stands there
/// alone or in a list, and whatever whitespace is around it.
pub proof fn lemma_object_is_found(
    answer: Seq<u8>,
    a: Seq<char>,
    b: Seq<char>,
    c: Seq<char>,
    d: Seq<char>,
    object: Seq<char>,
)
    requires
        vstd::utf8::valid_utf8(answer),
        text::is_blank(a) && text::is_blank(b) && text::is_blank(c) && text::is_blank(d),
        object.len() > 0,
        !text::is_space(object[0]) && object[0] != '[',
        !text::is_space(object.last()) && object.last() != ']',
        ({
            ||| vstd::utf8::decode_utf8(answer) == a + object + b
            ||| vstd::utf8::decode_utf8(answer) == a + (seq!['['] + c + object + d + seq![']']) + b
        }),
    ensures
        inspected(answer) == object,
{
    let all = vstd::utf8::decode_utf8(answer);
    let list = seq!['['] + c + object + d + seq![']'];
    if all == a + object + b {
        text::lemma_whitespace_goes(a, object, b);
    } else {
        text::lemma_whitespace_goes(a, list, b);
        let inner = c + object + d;
        let open = inner + seq![']'];
        assert(list =~= seq!['['] + open);
        assert(open[0] != '[') by {
            if c.len() > 0 {
                assert(open[0] == c[0]);
                assert(text::is_space(c[0]));
            } else {
                assert(open[0] == object[0]);
            }
        }
        assert(inner.last() != ']') by {
            if d.len() > 0 {
                assert(inner.last() == d[d.len() - 1]);
                assert(text::is_space(d[d.len() - 1]));
            } else {
                assert(inner.last() == object.last());
            }
        }
        text::lemma_copies_are_trimmed(open, seq!['['], '[');
        text::lemma_copies_are_trimmed(inner, seq![']'], ']');
        text::lemma_whitespace_goes(c, object, d);
    }
}

/// The size in tenths of a MiB is the nearest to the size in bytes, and a larger image
/// is not shown as a smaller one.
pub proof fn lemma_size_is_the_nearest(size: u64, larger: u64)
    requires
        size <= larger,
    ensures
        -0x80000 <= tenths_of_mib(size) * 0x100000 - size * 10 <= 0x80000,
        tenths_of_mib(size) <= tenths_of_mib(larger),
{
}

proof fn lemma_registry_of(image: Seq<char>, registry: Seq<char>, rest: Seq<char>)
    requires
        image == registry + seq!['/'] + rest,
        !registry.contains('/'),
    ensures
        before(image, '/') == registry,
{
    lemma_before(image, registry, rest, '/');
}

proof fn lemma_before(s: Seq<char>, head: Seq<char>, tail: Seq<char>, c: char)
    requires
        s == head + seq![c] + tail,
        !head.contains(c),
    ensures
        text::split_first(s, c) == Some((head, tail)),
        before(s, c) == head,
{
    let n = head.len() as int;
    assert(s[n] == c);
    assert forall|k: int| 0 <= k < n implies s[k] != c by {
        if s[k] == c {
            assert(head[k] == c);
            assert(head.contains(head[k]));
        }
    }
    text::lemma_index_of_first(s, c, n);
    assert(s.take(n) =~= head);
    assert(s.skip(n + 1) =~= tail);
}

proof fn lemma_digest_place(digests: Seq<Seq<char>>, registry: Seq<char>)
    ensures
        0 <= digest_place(digests, registry) <= digests.len(),
        digest_place(digests, registry) < digests.len() ==> registry.is_prefix_of(
            digests[digest_place(digests, registry)],
        ),
        forall|k: int|
            0 <= k < digest_place(digests, registry) ==> !registry.is_prefix_of(
                #[trigger] digests[k],
            ),
    decreases digests.len(),
{
    if digests.len() > 0 && !registry.is_prefix_of(digests[0]) {
        let rest = digests.drop_first();
        lemma_digest_place(rest, registry);
        assert forall|k: int| 0 <= k < digest_place(digests, registry) implies !registry.is_prefix_of(
            #[trigger] digests[k],
        ) by {
            if k > 0 {
                assert(rest[k - 1] == digests[k]);
            }
        }
    }
}

/// The digest of an image is the first from the registry that the image is named by;
/// where none is from there, the first of all; and there is one where there are any.
pub proof fn lemma_digest_is_of_the_registry(
    digests: Seq<Seq<char>>,
    registry: Seq<char>,
    rest: Seq<char>,
    size: u64,
    k: int,
)
    requires
        !registry.contains('/'),
        forall|j: int| 0 <= j < k ==> !registry.is_prefix_of(#[trigger] digests[j]),
    ensures
        ({
            let image = registry + seq!['/'] + rest;
            let digest = image_meta(image, size, digests).digest;
            &&& 0 <= k < digests.len() && registry.is_prefix_of(digests[k]) ==> digest == Some(
                digests[k],
            )
            &&& 0 < digests.len() <= k ==> digest == Some(digests[0])
            &&& digests.len() == 0 ==> digest is None
            &&& image_meta(image, size, digests).image == image
            &&& image_meta(image, size, digests).size_bytes == size
            &&& image_meta(image, size, digests).size_tenths == tenths_of_mib(size)
        }),
{
    lemma_registry_of(registry + seq!['/'] + rest, registry, rest);
    lemma_digest_place(digests, registry);
    let place = digest_place(digests, registry);
    if 0 <= k < digests.len() && registry.is_prefix_of(digests[k]) {
        if place < k {
            assert(!registry.is_prefix_of(digests[place]));
        } else if place > k {
            assert(registry.is_prefix_of(digests[k]));
        }
    }
}

/// The short digest is what stands behind the `@`; a digest without one has none.
pub proof fn lemma_short_digest(repository: Seq<char>, short: Seq<char>)
    requires
        !repository.contains('@'),
        !short.contains('@'),
    ensures
        short_digest(repository + seq!['@'] + short) == Some(short),
        short_digest(repository) is None,
{
    lemma_before(repository + seq!['@'] + short, repository, short, '@');
    text::lemma_split_first(short, '@');
    text::lemma_split_first(repository, '@');
}

/// Of every image, what is told has the short form of the digest that it has.
pub proof fn lemma_short_digest_is_of_the_digest(
    image: Seq<char>,
    size: u64,
    digests: Seq<Seq<char>>,
)
    ensures
        match image_meta(image, size, digests).digest {
            Some(digest) => image_meta(image, size, digests).digest_short == short_digest(digest),
            None => image_meta(image, size, digests).digest_short is None,
        },
{
}

/// The images that are there are told of in order, and all of them.
pub proof fn lemma_all_present_images_are_told(found: Seq<Option<ImageModel>>)
    ensures
        present(found) == found.filter_map(|image: Option<ImageModel>| image),
    decreases found.len(),
{
    if found.len() > 0 {
        lemma_all_present_images_are_told(found.drop_last());
        if let Some(image) = found.last() {
            let rest = present(found.drop_last());
            assert(rest.push(image) =~= rest + seq![image]);
        }
    }
}

/// An image is inspected for every entry of the catalog that is shown: its image for
/// the China region.
pub proof fn lemma_every_entry_has_its_image(rows: Option<Seq<store::RecordModel>>, i: int)
    ensures
        rows matches Some(rows) ==> catalog_images(Some(rows)).len() == rows.len() && (0 <= i
            < rows.len() ==> catalog_images(Some(rows))[i] == rows[i].image_cn),
        rows is None ==> catalog_images(rows).len() == store::catalog().len() && (0 <= i
            < store::catalog().len() ==> catalog_images(rows)[i] == store::catalog()[i].image_cn),
{
}

/// The container engine is asked for the image that is meant.
pub proof fn lemma_engine_is_asked_for_the_image(
    image: &str,
    pull: Vec<String>,
    inspect: Vec<String>,
)
    requires
        call_ensures(pull_args, (image,), pull),
        call_ensures(inspect_args, (image,), inspect),
    ensures
        text::texts(pull@).len() == 3,
        text::texts(pull@)[0] == "pull"@,
        text::texts(pull@).last() == image@,
        text::texts(inspect@).len() == 5,
        text::texts(inspect@)[0] == "image"@,
        text::texts(inspect@)[1] == "inspect"@,
        text::texts(inspect@).last() == image@,
{
}

/// A client is told the image, its size and its digest as the container engine has them.
pub proof fn lemma_client_is_told_what_was_found(
    image: &str,
    info: &InspectResult,
    told: ImageMeta,
)
    requires
        call_ensures(describe_image, (image, info), told),
    ensures
        told.image@ == image@,
        told.size_bytes == info.size,
        told.size_tenths == tenths_of_mib(info.size),
        told.digest is None <==> info.repo_digests@.len() == 0,
        told.digest matches Some(digest) ==> text::texts(info.repo_digests@).contains(digest@)
            && text::opt_text(told.digest_short) == short_digest(digest@),
{
    let digests = text::texts(info.repo_digests@);
    lemma_digest_place(digests, before(image@, '/'));
    let place = digest_place(digests, before(image@, '/'));
    assert(told.model().digest == text::opt_text(told.digest));
    assert(digests.len() == info.repo_digests@.len());
}

/// The images to inspect are those of the catalog that is shown, one per entry.
pub proof fn lemma_images_to_inspect(
    rows: Option<Vec<StoreTemplateRecord>>,
    images: Vec<String>,
    i: int,
)
    requires
        call_ensures(collect_store_images, (rows,), images),
    ensures
        rows matches Some(rows) ==> images@.len() == rows@.len() && (0 <= i < rows@.len()
            ==> images@[i]@ == rows@[i].image_cn@),
        rows is None ==> images@.len() == store::catalog().len() && (0 <= i
            < store::catalog().len() ==> images@[i]@ == store::catalog()[i].image_cn),
{
    lemma_every_entry_has_its_image(store::rows_model(rows), i);
    assert(text::texts(images@).len() == images@.len());
    if 0 <= i < images@.len() {
        assert(text::texts(images@)[i] == images@[i]@);
    }
}

/// A client is told of every image that was found, in order, and of no other.
pub proof fn lemma_client_is_told_of_all_images(found: Vec<Option<ImageMeta>>, told: StoreMeta)
    requires
        call_ensures(get_store_meta, (found,), told),
    ensures
        told.images@.map_values(|image: ImageMeta| image.model()) == found@.map_values(
            |image: Option<ImageMeta>| found_model(image),
        ).filter_map(|image: Option<ImageModel>| image),
{
    lemma_all_present_images_are_told(
        found@.map_values(|image: Option<ImageMeta>| found_model(image)),
    );
}

/// What is read as JSON of the answer of the container engine is the object in it, with
/// no whitespace around it.
pub proof fn lemma_object_is_read(answer: &[u8], object: String)
    requires
        call_ensures(inspect_json, (answer,), object),
    ensures
        object@ == inspected(answer@),
        object@.len() > 0 ==> !text::is_space(object@[0]) && !text::is_space(object@.last()),
{
    let raw = text::trimmed(text::lossy(answer@));
    text::lemma_trimmed_is_the_core(text::lossy(answer@));
    if raw.len() > 0 && raw[0] == '[' {
        text::lemma_trimmed_is_the_core(
            text::trim_end_char(text::trim_start_char(raw, '['), ']'),
        );
    }
}

} // verus!
