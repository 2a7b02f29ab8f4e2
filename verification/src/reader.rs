//! Reading a manifest back from its canonical text.

use crate::parse::{
    after, expect, lemma_after, lemma_not_after, lemma_number_round_trip,
    lemma_string_round_trip, number_at, parse_number, parse_string, rest_from, string_at,
};
use crate::parse::chars_of;
use crate::storage::base::StorageError;
use crate::storage::types::manifest::{LayerEntry, Manifest, ManifestConfig, ManifestEntry, Platform};
use crate::utils::{
    push_line, push_member, to_json_normalized, canonical_bytes, MAX_DEPTH,
    canonical, descriptor, entries_text, entry_text, entry_texts, feature_texts, features_text,
    items, layer_texts, layers_text, line, list, member, optional_platform_text, platform_text,
    quoted,
};
use vstd::prelude::*;
use vstd::string::*;

verus! {

/// What a descriptor says.
pub struct DescriptorModel {
    pub media_type: Seq<char>,
    pub size: nat,
    pub digest: Seq<char>,
}

/// What a platform says.
pub struct PlatformModel {
    pub architecture: Seq<char>,
    pub os: Seq<char>,
    pub features: Option<Seq<Seq<char>>>,
}

/// What a manifest entry says.
pub struct EntryModel {
    pub media_type: Seq<char>,
    pub size: nat,
    pub digest: Seq<char>,
    pub platform: Option<PlatformModel>,
}

/// What a manifest says.
pub struct ManifestModel {
    pub schema_version: nat,
    pub media_type: Seq<char>,
    pub config: DescriptorModel,
    pub manifests: Option<Seq<EntryModel>>,
    pub layers: Option<Seq<DescriptorModel>>,
}

/// What a list of feature names says.
pub open spec fn features_model(features: Option<Vec<String>>) -> Option<Seq<Seq<char>>> {
    match features {
        None => None,
        Some(v) => Some(Seq::new(v@.len(), |i: int| v@[i]@)),
    }
}

/// What a platform says.
pub open spec fn platform_model(p: Platform) -> PlatformModel {
    PlatformModel {
        architecture: p.architecture@,
        os: p.os@,
        features: features_model(p.features),
    }
}

/// What an optional platform says.
pub open spec fn optional_platform_model(p: Option<Platform>) -> Option<PlatformModel> {
    match p {
        None => None,
        Some(p) => Some(platform_model(p)),
    }
}

/// What a manifest entry says.
pub open spec fn entry_model(e: ManifestEntry) -> EntryModel {
    EntryModel {
        media_type: e.media_type@,
        size: e.size as nat,
        digest: e.digest@,
        platform: optional_platform_model(e.platform),
    }
}

/// What a layer says.
pub open spec fn layer_model(l: LayerEntry) -> DescriptorModel {
    DescriptorModel { media_type: l.media_type@, size: l.size as nat, digest: l.digest@ }
}

/// What a configuration descriptor says.
pub open spec fn config_model(c: ManifestConfig) -> DescriptorModel {
    DescriptorModel { media_type: c.media_type@, size: c.size as nat, digest: c.digest@ }
}

/// What a list of manifest entries says.
pub open spec fn entries_model(entries: Option<Vec<ManifestEntry>>) -> Option<Seq<EntryModel>> {
    match entries {
        None => None,
        Some(v) => Some(Seq::new(v@.len(), |i: int| entry_model(v@[i]))),
    }
}

/// What a list of layers says.
pub open spec fn layers_model(layers: Option<Vec<LayerEntry>>) -> Option<Seq<DescriptorModel>> {
    match layers {
        None => None,
        Some(v) => Some(Seq::new(v@.len(), |i: int| layer_model(v@[i]))),
    }
}

/// What a manifest says.
pub open spec fn manifest_model(m: Manifest) -> ManifestModel {
    ManifestModel {
        schema_version: m.schema_version as nat,
        media_type: m.media_type@,
        config: config_model(m.config),
        manifests: entries_model(m.manifests),
        layers: layers_model(m.layers),
    }
}

/// What stands before a member of a list whose members are at `depth`.
pub open spec fn lead(depth: nat, first: bool) -> Seq<char> {
    if first {
        line(depth)
    } else {
        seq![','] + line(depth)
    }
}

/// What closes a list at `depth` that is not empty.
pub open spec fn close(depth: nat) -> Seq<char> {
    line(depth) + seq![']']
}

/// A value with more values in front.
pub open spec fn with_values<T>(front: Seq<T>, r: Option<(Seq<T>, Seq<char>)>) -> Option<
    (Seq<T>, Seq<char>),
> {
    match r {
        Some((values, rest)) => Some((front + values, rest)),
        None => None,
    }
}

/// The members of a list at `depth` that is not empty, up to its closing
/// bracket, and what follows it. Each member is read by `item`.
pub open spec fn items_at<T>(
    input: Seq<char>,
    depth: nat,
    item: spec_fn(Seq<char>) -> Option<(T, Seq<char>)>,
    first: bool,
) -> Option<(Seq<T>, Seq<char>)>
    decreases input.len(),
{
    match after(input, lead(depth + 1, first)) {
        None => None,
        Some(r1) => match item(r1) {
            None => None,
            Some((v, r2)) => if r2.len() >= input.len() {
                None
            } else {
                match after(r2, close(depth)) {
                    Some(r3) => Some((seq![v], r3)),
                    None => with_values(seq![v], items_at(r2, depth, item, false)),
                }
            },
        },
    }
}

/// The list at the front of `input`, at `depth`, and what follows it.
pub open spec fn list_at<T>(
    input: Seq<char>,
    depth: nat,
    item: spec_fn(Seq<char>) -> Option<(T, Seq<char>)>,
) -> Option<(Seq<T>, Seq<char>)> {
    match after(input, seq!['[', ']']) {
        Some(r) => Some((Seq::empty(), r)),
        None => match after(input, seq!['[']) {
            None => None,
            Some(r) => items_at(r, depth, item, true),
        },
    }
}

/// The optional value at the front of `input`: nothing for `null`, else
/// what `inner` reads.
pub open spec fn optional_at<T>(
    input: Seq<char>,
    inner: spec_fn(Seq<char>) -> Option<(T, Seq<char>)>,
) -> Option<(Option<T>, Seq<char>)> {
    match after(input, seq!['n', 'u', 'l', 'l']) {
        Some(r) => Some((None, r)),
        None => match inner(input) {
            Some((v, r)) => Some((Some(v), r)),
            None => None,
        },
    }
}

/// The members of a list, each with what stands before it, from the
/// first on.
pub open spec fn chain(texts: Seq<Seq<char>>, depth: nat, first: bool) -> Seq<char>
    decreases texts.len(),
{
    if texts.len() == 0 {
        Seq::empty()
    } else {
        lead(depth, first) + texts[0] + chain(texts.drop_first(), depth, false)
    }
}

/// A chain ends with its last member.
pub proof fn lemma_chain_end(texts: Seq<Seq<char>>, depth: nat, first: bool)
    requires
        texts.len() >= 2,
    ensures
        chain(texts, depth, first) == chain(texts.drop_last(), depth, first) + lead(depth, false)
            + texts.last(),
    decreases texts.len(),
{
    let tail = texts.drop_first();
    let front = texts.drop_last();
    assert(front.drop_first() =~= tail.drop_last());
    assert(front[0] == texts[0]);
    assert(tail.last() == texts.last());
    if texts.len() == 2 {
        assert(tail.drop_first().len() == 0);
        assert(front.drop_first().len() == 0);
        assert(chain(tail.drop_first(), depth, false) =~= Seq::<char>::empty());
        assert(chain(front.drop_first(), depth, false) =~= Seq::<char>::empty());
        assert(tail[0] == texts.last());
        assert(chain(tail, depth, false) =~= lead(depth, false) + texts.last());
        assert(chain(front, depth, first) =~= lead(depth, first) + texts[0]);
        assert(chain(texts, depth, first) =~= chain(front, depth, first) + lead(depth, false)
            + texts.last());
    } else {
        lemma_chain_end(tail, depth, false);
        assert(chain(texts, depth, first) =~= chain(front, depth, first) + lead(depth, false)
            + texts.last());
    }
}

/// The members of a list as the encoder writes them are their chain.
pub proof fn lemma_items_are_chain(texts: Seq<Seq<char>>, depth: nat)
    requires
        texts.len() > 0,
    ensures
        items(texts, depth) == chain(texts, depth, true),
    decreases texts.len(),
{
    if texts.len() == 1 {
        assert(texts.drop_first().len() == 0);
        assert(chain(texts.drop_first(), depth, false) =~= Seq::<char>::empty());
        assert(texts.drop_last().len() == 0);
        assert(chain(texts, depth, true) =~= line(depth) + texts[0]);
    } else {
        lemma_items_are_chain(texts.drop_last(), depth);
        lemma_chain_end(texts, depth, true);
        assert(items(texts, depth) =~= chain(texts, depth, true));
    }
}

/// A list's members are read back from their chain and the closing
/// bracket, where each member is read back from its own text.
pub proof fn lemma_items_round_trip<T>(
    texts: Seq<Seq<char>>,
    values: Seq<T>,
    depth: nat,
    item: spec_fn(Seq<char>) -> Option<(T, Seq<char>)>,
    first: bool,
    rest: Seq<char>,
)
    requires
        texts.len() == values.len(),
        texts.len() > 0,
        forall|i: int, r: Seq<char>|
            0 <= i < texts.len() ==> #[trigger] item(texts[i] + r) == Some((values[i], r)),
    ensures
        items_at(chain(texts, depth + 1, first) + close(depth) + rest, depth, item, first) == Some(
            (values, rest),
        ),
    decreases texts.len(),
{
    let input = chain(texts, depth + 1, first) + close(depth) + rest;
    let tail = texts.drop_first();
    let later = chain(tail, depth + 1, false) + close(depth) + rest;
    let l = lead(depth + 1, first);
    assert(input =~= l + (texts[0] + later));
    lemma_after(l, texts[0] + later);
    assert(item(texts[0] + later) == Some((values[0], later)));
    assert(l.len() > 0);
    if texts.len() == 1 {
        assert(tail =~= Seq::<Seq<char>>::empty());
        assert(later =~= close(depth) + rest);
        lemma_after(close(depth), rest);
        assert(seq![values[0]] =~= values);
    } else {
        assert(later[0] == ',');
        assert(close(depth)[0] == '\n');
        lemma_not_after(later, close(depth));
        assert forall|i: int, r: Seq<char>| 0 <= i < tail.len() implies #[trigger] item(
            tail[i] + r,
        ) == Some((values.drop_first()[i], r)) by {
            assert(tail[i] == texts[i + 1]);
            assert(item(texts[i + 1] + r) == Some((values[i + 1], r)));
        }
        lemma_items_round_trip(tail, values.drop_first(), depth, item, false, rest);
        assert(seq![values[0]] + values.drop_first() =~= values);
    }
}

/// A list is read back from its text, where each member is read back from
/// its own text.
pub proof fn lemma_list_round_trip<T>(
    texts: Seq<Seq<char>>,
    values: Seq<T>,
    depth: nat,
    item: spec_fn(Seq<char>) -> Option<(T, Seq<char>)>,
    rest: Seq<char>,
)
    requires
        texts.len() == values.len(),
        forall|i: int, r: Seq<char>|
            0 <= i < texts.len() ==> #[trigger] item(texts[i] + r) == Some((values[i], r)),
    ensures
        list_at(list(texts, depth) + rest, depth, item) == Some((values, rest)),
{
    let input = list(texts, depth) + rest;
    if texts.len() == 0 {
        reveal_strlit("[]");
        assert("[]"@ =~= seq!['[', ']']);
        lemma_after(seq!['[', ']'], rest);
        assert(values =~= Seq::<T>::empty());
    } else {
        lemma_items_are_chain(texts, depth + 1);
        let body = chain(texts, depth + 1, true) + close(depth) + rest;
        assert(input =~= seq!['['] + body);
        assert(input[1] == '\n');
        if after(input, seq!['[', ']']) is Some {
            assert(input.take(2)[1] == ']');
        }
        lemma_after(seq!['['], body);
        lemma_items_round_trip(texts, values, depth, item, true, rest);
    }
}

/// Reads one string.
pub open spec fn string_item() -> spec_fn(Seq<char>) -> Option<(Seq<char>, Seq<char>)> {
    |input: Seq<char>| string_at(input)
}

/// Reads a list of strings at `depth`.
pub open spec fn features_list(depth: nat) -> spec_fn(Seq<char>) -> Option<
    (Seq<Seq<char>>, Seq<char>),
> {
    |input: Seq<char>| list_at(input, depth, string_item())
}

/// Reads one platform at `depth`.
pub open spec fn platform_item(depth: nat) -> spec_fn(Seq<char>) -> Option<
    (PlatformModel, Seq<char>),
> {
    |input: Seq<char>| platform_at(input, depth)
}

/// Reads one manifest entry at `depth`.
pub open spec fn entry_item(depth: nat) -> spec_fn(Seq<char>) -> Option<(EntryModel, Seq<char>)> {
    |input: Seq<char>| entry_at(input, depth)
}

/// Reads one layer at `depth`.
pub open spec fn layer_item(depth: nat) -> spec_fn(Seq<char>) -> Option<
    (DescriptorModel, Seq<char>),
> {
    |input: Seq<char>| descriptor_at(input, depth, u32::MAX as nat)
}

/// Reads a list of manifest entries at `depth`.
pub open spec fn entries_list(depth: nat) -> spec_fn(Seq<char>) -> Option<
    (Seq<EntryModel>, Seq<char>),
> {
    |input: Seq<char>| list_at(input, depth, entry_item(depth + 1))
}

/// Reads a list of layers at `depth`.
pub open spec fn layers_list(depth: nat) -> spec_fn(Seq<char>) -> Option<
    (Seq<DescriptorModel>, Seq<char>),
> {
    |input: Seq<char>| list_at(input, depth, layer_item(depth + 1))
}

/// The opening brace of an object at `depth` and what stands before the
/// value of its first member.
pub open spec fn open_with(depth: nat, key: Seq<char>) -> Seq<char> {
    seq!['{'] + member(true, depth + 1, key)
}

/// What closes an object at `depth`.
pub open spec fn close_object(depth: nat) -> Seq<char> {
    line(depth) + seq!['}']
}

/// The descriptor at the front of `input`, at `depth`, with a size of at
/// most `max`, and what follows it.
pub open spec fn descriptor_at(input: Seq<char>, depth: nat, max: nat) -> Option<
    (DescriptorModel, Seq<char>),
> {
    match after(input, open_with(depth, "\"mediaType\": "@)) {
        None => None,
        Some(r1) => match string_at(r1) {
            None => None,
            Some((media_type, r2)) => match after(r2, member(false, depth + 1, "\"size\": "@)) {
                None => None,
                Some(r3) => match number_at(r3, max) {
                    None => None,
                    Some((size, r4)) => match after(
                        r4,
                        member(false, depth + 1, "\"digest\": "@),
                    ) {
                        None => None,
                        Some(r5) => match string_at(r5) {
                            None => None,
                            Some((digest, r6)) => match after(r6, close_object(depth)) {
                                None => None,
                                Some(r7) => Some(
                                    (DescriptorModel { media_type, size, digest }, r7),
                                ),
                            },
                        },
                    },
                },
            },
        },
    }
}

/// The platform at the front of `input`, at `depth`, and what follows it.
pub open spec fn platform_at(input: Seq<char>, depth: nat) -> Option<(PlatformModel, Seq<char>)> {
    match after(input, open_with(depth, "\"architecture\": "@)) {
        None => None,
        Some(r1) => match string_at(r1) {
            None => None,
            Some((architecture, r2)) => match after(r2, member(false, depth + 1, "\"os\": "@)) {
                None => None,
                Some(r3) => match string_at(r3) {
                    None => None,
                    Some((os, r4)) => match after(
                        r4,
                        member(false, depth + 1, "\"features\": "@),
                    ) {
                        None => None,
                        Some(r5) => match optional_at(r5, features_list(depth + 1)) {
                            None => None,
                            Some((features, r6)) => match after(r6, close_object(depth)) {
                                None => None,
                                Some(r7) => Some(
                                    (PlatformModel { architecture, os, features }, r7),
                                ),
                            },
                        },
                    },
                },
            },
        },
    }
}

/// The manifest entry at the front of `input`, at `depth`, and what
/// follows it.
pub open spec fn entry_at(input: Seq<char>, depth: nat) -> Option<(EntryModel, Seq<char>)> {
    match descriptor_head_at(input, depth, u32::MAX as nat) {
        None => None,
        Some((head, r6)) => match after(r6, member(false, depth + 1, "\"platform\": "@)) {
            None => None,
            Some(r7) => match optional_at(r7, platform_item(depth + 1)) {
                None => None,
                Some((platform, r8)) => match after(r8, close_object(depth)) {
                    None => None,
                    Some(r9) => Some(
                        (
                            EntryModel {
                                media_type: head.media_type,
                                size: head.size,
                                digest: head.digest,
                                platform,
                            },
                            r9,
                        ),
                    ),
                },
            },
        },
    }
}

/// The first three members of an object at `depth`: media type, size and
/// digest.
pub open spec fn descriptor_head_at(input: Seq<char>, depth: nat, max: nat) -> Option<
    (DescriptorModel, Seq<char>),
> {
    match after(input, open_with(depth, "\"mediaType\": "@)) {
        None => None,
        Some(r1) => match string_at(r1) {
            None => None,
            Some((media_type, r2)) => match after(r2, member(false, depth + 1, "\"size\": "@)) {
                None => None,
                Some(r3) => match number_at(r3, max) {
                    None => None,
                    Some((size, r4)) => match after(
                        r4,
                        member(false, depth + 1, "\"digest\": "@),
                    ) {
                        None => None,
                        Some(r5) => match string_at(r5) {
                            None => None,
                            Some((digest, r6)) => Some(
                                (DescriptorModel { media_type, size, digest }, r6),
                            ),
                        },
                    },
                },
            },
        },
    }
}

/// The first three members of a manifest: schema version, media type
/// and configuration.
pub open spec fn manifest_head_at(input: Seq<char>) -> Option<
    (nat, Seq<char>, DescriptorModel, Seq<char>),
> {
    match after(input, open_with(0, "\"schemaVersion\": "@)) {
        None => None,
        Some(r1) => match number_at(r1, u32::MAX as nat) {
            None => None,
            Some((schema_version, r2)) => match after(r2, member(false, 1, "\"mediaType\": "@)) {
                None => None,
                Some(r3) => match string_at(r3) {
                    None => None,
                    Some((media_type, r4)) => match after(r4, member(false, 1, "\"config\": "@)) {
                        None => None,
                        Some(r5) => match descriptor_at(r5, 1, u64::MAX as nat) {
                            None => None,
                            Some((config, r6)) => Some((schema_version, media_type, config, r6)),
                        },
                    },
                },
            },
        },
    }
}

/// The last two members of a manifest, its two lists, up to the end of
/// the text.
pub open spec fn manifest_lists_at(input: Seq<char>) -> Option<
    (Option<Seq<EntryModel>>, Option<Seq<DescriptorModel>>),
> {
    match after(input, member(false, 1, "\"manifests\": "@)) {
        None => None,
        Some(r7) => match optional_at(r7, entries_list(1)) {
            None => None,
            Some((manifests, r8)) => match after(r8, member(false, 1, "\"layers\": "@)) {
                None => None,
                Some(r9) => match optional_at(r9, layers_list(1)) {
                    None => None,
                    Some((layers, r10)) => if after(r10, close_object(0)) == Some(
                        Seq::<char>::empty(),
                    ) {
                        Some((manifests, layers))
                    } else {
                        None
                    },
                },
            },
        },
    }
}

/// The manifest that a whole text holds.
pub open spec fn manifest_at(input: Seq<char>) -> Option<ManifestModel> {
    match manifest_head_at(input) {
        None => None,
        Some((schema_version, media_type, config, rest)) => match manifest_lists_at(rest) {
            None => None,
            Some((manifests, layers)) => Some(
                ManifestModel { schema_version, media_type, config, manifests, layers },
            ),
        },
    }
}

/// The text of a manifest's two lists, up to the end.
pub open spec fn lists_text(m: Manifest) -> Seq<char> {
    member(false, 1, "\"manifests\": "@) + entries_text(m.manifests, 1) + member(
        false,
        1,
        "\"layers\": "@,
    ) + layers_text(m.layers, 1) + close_object(0)
}

/// The text of a manifest's first three members.
pub open spec fn head_text(m: Manifest) -> Seq<char> {
    open_with(0, "\"schemaVersion\": "@) + crate::utils::decimal(m.schema_version as nat) + member(
        false,
        1,
        "\"mediaType\": "@,
    ) + quoted(m.media_type@) + member(false, 1, "\"config\": "@) + descriptor(
        m.config.media_type@,
        m.config.size as nat,
        m.config.digest@,
        1,
    )
}

/// The canonical text of a manifest is its first three members and its
/// two lists.
pub proof fn lemma_canonical_parts(m: Manifest)
    ensures
        canonical(m) == head_text(m) + lists_text(m),
{
    assert(canonical(m) =~= head_text(m) + lists_text(m));
}

/// The first three members of a manifest are read back from their text.
pub proof fn lemma_manifest_head_round_trip(m: Manifest, rest: Seq<char>)
    requires
        rest.len() > 0,
        rest[0] == ',',
    ensures
        manifest_head_at(head_text(m) + rest) == Some(
            (m.schema_version as nat, m.media_type@, config_model(m.config), rest),
        ),
{
    let m1 = open_with(0, "\"schemaVersion\": "@);
    let m2 = member(false, 1, "\"mediaType\": "@);
    let m3 = member(false, 1, "\"config\": "@);
    let s5 = descriptor(m.config.media_type@, m.config.size as nat, m.config.digest@, 1) + rest;
    let s4 = m3 + s5;
    let s3 = quoted(m.media_type@) + s4;
    let s2 = m2 + s3;
    let s1 = crate::utils::decimal(m.schema_version as nat) + s2;
    assert(head_text(m) + rest =~= m1 + s1);
    lemma_after(m1, s1);
    assert(s2[0] == ',');
    lemma_number_round_trip(m.schema_version as nat, u32::MAX as nat, s2);
    lemma_after(m2, s3);
    lemma_string_round_trip(m.media_type@, s4);
    lemma_after(m3, s5);
    lemma_descriptor_round_trip(
        m.config.media_type@,
        m.config.size as nat,
        m.config.digest@,
        1,
        u64::MAX as nat,
        rest,
    );
}

/// The two lists of a manifest are read back from their text.
pub proof fn lemma_manifest_lists_round_trip(m: Manifest)
    ensures
        manifest_lists_at(lists_text(m)) == Some(
            (entries_model(m.manifests), layers_model(m.layers)),
        ),
{
    let m4 = member(false, 1, "\"manifests\": "@);
    let m5 = member(false, 1, "\"layers\": "@);
    let empty = Seq::<char>::empty();
    let s10 = close_object(0) + empty;
    let s9 = layers_text(m.layers, 1) + s10;
    let s8 = m5 + s9;
    let s7 = entries_text(m.manifests, 1) + s8;
    assert(lists_text(m) =~= m4 + s7);
    lemma_after(m4, s7);
    lemma_entries_round_trip(m.manifests, 1, s8);
    lemma_after(m5, s9);
    lemma_layers_round_trip(m.layers, 1, s10);
    lemma_after(close_object(0), empty);
}

/// The first three members of an object are read back from their text.
pub proof fn lemma_head_round_trip(
    media_type: Seq<char>,
    size: nat,
    digest: Seq<char>,
    depth: nat,
    max: nat,
    rest: Seq<char>,
)
    requires
        size <= max,
    ensures
        descriptor_head_at(
            open_with(depth, "\"mediaType\": "@) + quoted(media_type) + member(
                false,
                depth + 1,
                "\"size\": "@,
            ) + crate::utils::decimal(size) + member(false, depth + 1, "\"digest\": "@) + quoted(
                digest,
            ) + rest,
            depth,
            max,
        ) == Some((DescriptorModel { media_type, size, digest }, rest)),
{
    let m1 = open_with(depth, "\"mediaType\": "@);
    let m2 = member(false, depth + 1, "\"size\": "@);
    let m3 = member(false, depth + 1, "\"digest\": "@);
    let s5 = quoted(digest) + rest;
    let s4 = m3 + s5;
    let s3 = crate::utils::decimal(size) + s4;
    let s2 = m2 + s3;
    let s1 = quoted(media_type) + s2;
    let input = m1 + quoted(media_type) + m2 + crate::utils::decimal(size) + m3 + quoted(digest)
        + rest;
    assert(input =~= m1 + s1);
    lemma_after(m1, s1);
    lemma_string_round_trip(media_type, s2);
    lemma_after(m2, s3);
    assert(s4[0] == ',');
    lemma_number_round_trip(size, max, s4);
    lemma_after(m3, s5);
    lemma_string_round_trip(digest, rest);
}

/// A descriptor is read back from its text.
pub proof fn lemma_descriptor_round_trip(
    media_type: Seq<char>,
    size: nat,
    digest: Seq<char>,
    depth: nat,
    max: nat,
    rest: Seq<char>,
)
    requires
        size <= max,
    ensures
        descriptor_at(descriptor(media_type, size, digest, depth) + rest, depth, max) == Some(
            (DescriptorModel { media_type, size, digest }, rest),
        ),
{
    let tail = close_object(depth) + rest;
    lemma_head_round_trip(media_type, size, digest, depth, max, tail);
    lemma_after(close_object(depth), rest);
    let input = descriptor(media_type, size, digest, depth) + rest;
    assert(input =~= open_with(depth, "\"mediaType\": "@) + quoted(media_type) + member(
        false,
        depth + 1,
        "\"size\": "@,
    ) + crate::utils::decimal(size) + member(false, depth + 1, "\"digest\": "@) + quoted(digest)
        + tail);
    assert(descriptor_head_at(input, depth, max) == Some(
        (DescriptorModel { media_type, size, digest }, tail),
    ));
}

/// An absent value is read back from `null`.
pub proof fn lemma_null_round_trip<T>(
    inner: spec_fn(Seq<char>) -> Option<(T, Seq<char>)>,
    rest: Seq<char>,
)
    ensures
        optional_at("null"@ + rest, inner) == Some((None::<T>, rest)),
{
    reveal_strlit("null");
    assert("null"@ =~= seq!['n', 'u', 'l', 'l']);
    lemma_after(seq!['n', 'u', 'l', 'l'], rest);
}

/// A value that is present is read back from its text, where that does
/// not begin like `null`.
pub proof fn lemma_present_round_trip<T>(
    inner: spec_fn(Seq<char>) -> Option<(T, Seq<char>)>,
    input: Seq<char>,
    value: T,
    rest: Seq<char>,
)
    requires
        inner(input) == Some((value, rest)),
        input.len() > 0 ==> input[0] != 'n',
    ensures
        optional_at(input, inner) == Some((Some(value), rest)),
{
    lemma_not_after(input, seq!['n', 'u', 'l', 'l']);
}

/// An optional list of feature names is read back from its text.
pub proof fn lemma_features_round_trip(features: Option<Vec<String>>, depth: nat, rest: Seq<char>)
    ensures
        optional_at(features_text(features, depth) + rest, features_list(depth)) == Some(
            (features_model(features), rest),
        ),
{
    match features {
        None => {
            lemma_null_round_trip(features_list(depth), rest);
        },
        Some(v) => {
            let texts = feature_texts(v@);
            let values = Seq::new(v@.len(), |i: int| v@[i]@);
            assert forall|i: int, r: Seq<char>| 0 <= i < texts.len() implies #[trigger] string_item()(
                texts[i] + r,
            ) == Some((values[i], r)) by {
                lemma_string_round_trip(v@[i]@, r);
            }
            lemma_list_round_trip(texts, values, depth, string_item(), rest);
            let input = list(texts, depth) + rest;
            reveal_strlit("[]");
            assert(input[0] == '[');
            lemma_present_round_trip(features_list(depth), input, values, rest);
        },
    }
}

/// A platform is read back from its text.
pub proof fn lemma_platform_round_trip(p: Platform, depth: nat, rest: Seq<char>)
    ensures
        platform_at(platform_text(p, depth) + rest, depth) == Some((platform_model(p), rest)),
{
    let m1 = open_with(depth, "\"architecture\": "@);
    let m2 = member(false, depth + 1, "\"os\": "@);
    let m3 = member(false, depth + 1, "\"features\": "@);
    let s6 = close_object(depth) + rest;
    let s5 = features_text(p.features, depth + 1) + s6;
    let s4 = m3 + s5;
    let s3 = quoted(p.os@) + s4;
    let s2 = m2 + s3;
    let s1 = quoted(p.architecture@) + s2;
    let input = platform_text(p, depth) + rest;
    assert(input =~= m1 + s1);
    lemma_after(m1, s1);
    lemma_string_round_trip(p.architecture@, s2);
    lemma_after(m2, s3);
    lemma_string_round_trip(p.os@, s4);
    lemma_after(m3, s5);
    lemma_features_round_trip(p.features, depth + 1, s6);
    lemma_after(close_object(depth), rest);
}

/// An optional platform is read back from its text.
pub proof fn lemma_optional_platform_round_trip(
    p: Option<Platform>,
    depth: nat,
    rest: Seq<char>,
)
    ensures
        optional_at(optional_platform_text(p, depth) + rest, platform_item(depth)) == Some(
            (optional_platform_model(p), rest),
        ),
{
    match p {
        None => {
            lemma_null_round_trip(platform_item(depth), rest);
        },
        Some(p) => {
            lemma_platform_round_trip(p, depth, rest);
            let input = platform_text(p, depth) + rest;
            assert(input[0] == '{');
            lemma_present_round_trip(platform_item(depth), input, platform_model(p), rest);
        },
    }
}

/// The text of a manifest entry is its first three members, its
/// platform and its closing brace.
pub proof fn lemma_entry_parts(e: ManifestEntry, depth: nat, rest: Seq<char>)
    ensures
        entry_text(e, depth) + rest == open_with(depth, "\"mediaType\": "@) + quoted(e.media_type@)
            + member(false, depth + 1, "\"size\": "@) + crate::utils::decimal(e.size as nat)
            + member(false, depth + 1, "\"digest\": "@) + quoted(e.digest@) + (member(
            false,
            depth + 1,
            "\"platform\": "@,
        ) + (optional_platform_text(e.platform, depth + 1) + (close_object(depth) + rest))),
{
    assert(entry_text(e, depth) + rest =~= open_with(depth, "\"mediaType\": "@) + quoted(
        e.media_type@,
    ) + member(false, depth + 1, "\"size\": "@) + crate::utils::decimal(e.size as nat) + member(
        false,
        depth + 1,
        "\"digest\": "@,
    ) + quoted(e.digest@) + (member(false, depth + 1, "\"platform\": "@) + (optional_platform_text(
        e.platform,
        depth + 1,
    ) + (close_object(depth) + rest))));
}

/// A manifest entry is read back from its text.
pub proof fn lemma_entry_round_trip(e: ManifestEntry, depth: nat, rest: Seq<char>)
    ensures
        entry_at(entry_text(e, depth) + rest, depth) == Some((entry_model(e), rest)),
{
    let m4 = member(false, depth + 1, "\"platform\": "@);
    let s8 = close_object(depth) + rest;
    let s7 = optional_platform_text(e.platform, depth + 1) + s8;
    let s6 = m4 + s7;
    lemma_entry_parts(e, depth, rest);
    lemma_head_round_trip(e.media_type@, e.size as nat, e.digest@, depth, u32::MAX as nat, s6);
    lemma_after(m4, s7);
    lemma_optional_platform_round_trip(e.platform, depth + 1, s8);
    lemma_after(close_object(depth), rest);
}

/// An optional list of manifest entries is read back from its text.
pub proof fn lemma_entries_round_trip(
    entries: Option<Vec<ManifestEntry>>,
    depth: nat,
    rest: Seq<char>,
)
    ensures
        optional_at(entries_text(entries, depth) + rest, entries_list(depth)) == Some(
            (entries_model(entries), rest),
        ),
{
    match entries {
        None => {
            lemma_null_round_trip(entries_list(depth), rest);
        },
        Some(v) => {
            let texts = entry_texts(v@, depth + 1);
            let values = Seq::new(v@.len(), |i: int| entry_model(v@[i]));
            assert forall|i: int, r: Seq<char>| 0 <= i < texts.len() implies #[trigger] entry_item(
                depth + 1,
            )(texts[i] + r) == Some((values[i], r)) by {
                lemma_entry_round_trip(v@[i], depth + 1, r);
            }
            lemma_list_round_trip(texts, values, depth, entry_item(depth + 1), rest);
            let input = list(texts, depth) + rest;
            reveal_strlit("[]");
            assert(input[0] == '[');
            lemma_present_round_trip(entries_list(depth), input, values, rest);
        },
    }
}

/// An optional list of layers is read back from its text.
pub proof fn lemma_layers_round_trip(layers: Option<Vec<LayerEntry>>, depth: nat, rest: Seq<char>)
    ensures
        optional_at(layers_text(layers, depth) + rest, layers_list(depth)) == Some(
            (layers_model(layers), rest),
        ),
{
    match layers {
        None => {
            lemma_null_round_trip(layers_list(depth), rest);
        },
        Some(v) => {
            let texts = layer_texts(v@, depth + 1);
            let values = Seq::new(v@.len(), |i: int| layer_model(v@[i]));
            assert forall|i: int, r: Seq<char>| 0 <= i < texts.len() implies #[trigger] layer_item(
                depth + 1,
            )(texts[i] + r) == Some((values[i], r)) by {
                lemma_descriptor_round_trip(
                    v@[i].media_type@,
                    v@[i].size as nat,
                    v@[i].digest@,
                    depth + 1,
                    u32::MAX as nat,
                    r,
                );
            }
            lemma_list_round_trip(texts, values, depth, layer_item(depth + 1), rest);
            let input = list(texts, depth) + rest;
            reveal_strlit("[]");
            assert(input[0] == '[');
            lemma_present_round_trip(layers_list(depth), input, values, rest);
        },
    }
}

/// A manifest is read back from its canonical text.
pub proof fn lemma_manifest_round_trip(m: Manifest)
    ensures
        manifest_at(canonical(m)) == Some(manifest_model(m)),
{
    lemma_canonical_parts(m);
    let rest = lists_text(m);
    assert(rest[0] == ',');
    lemma_manifest_head_round_trip(m, rest);
    lemma_manifest_lists_round_trip(m);
}

/// One more member, read at the front of what is left of a list.
pub proof fn lemma_items_next<T>(
    input: Seq<char>,
    depth: nat,
    item: spec_fn(Seq<char>) -> Option<(T, Seq<char>)>,
    first: bool,
    r1: Seq<char>,
    v: T,
    r2: Seq<char>,
    front: Seq<T>,
)
    requires
        after(input, lead(depth + 1, first)) == Some(r1),
        item(r1) == Some((v, r2)),
        r2.len() < input.len(),
    ensures
        after(r2, close(depth)) matches Some(r3) ==> with_values(
            front,
            items_at(input, depth, item, first),
        ) == Some((front.push(v), r3)),
        after(r2, close(depth)) is None ==> with_values(
            front,
            items_at(input, depth, item, first),
        ) == with_values(front.push(v), items_at(r2, depth, item, false)),
{
    assert(front + seq![v] =~= front.push(v));
    let later = items_at(r2, depth, item, false);
    if after(r2, close(depth)) is None && later is Some {
        assert(front + (seq![v] + later.unwrap().0) =~= front.push(v) + later.unwrap().0);
    }
}

/// The opening brace of an object and what stands before its first value.
fn open_with_text(depth: usize, key: &str) -> (lit: String)
    requires
        depth < MAX_DEPTH,
    ensures
        lit@ == open_with(depth as nat, key@),
{
    let mut lit = String::new();
    lit.push('{');
    push_member(&mut lit, true, depth + 1, key);
    assert(lit@ =~= open_with(depth as nat, key@));
    lit
}

/// What stands before the value of a later member.
fn member_text(depth: usize, key: &str) -> (lit: String)
    requires
        depth <= MAX_DEPTH,
    ensures
        lit@ == member(false, depth as nat, key@),
{
    let mut lit = String::new();
    push_member(&mut lit, false, depth, key);
    assert(lit@ =~= member(false, depth as nat, key@));
    lit
}

/// What closes an object.
fn close_object_text(depth: usize) -> (lit: String)
    requires
        depth <= MAX_DEPTH,
    ensures
        lit@ == close_object(depth as nat),
{
    let mut lit = String::new();
    push_line(&mut lit, depth);
    lit.push('}');
    assert(lit@ =~= close_object(depth as nat));
    lit
}

/// What stands before a member of a list.
fn lead_text(depth: usize, first: bool) -> (lit: String)
    requires
        depth <= MAX_DEPTH,
    ensures
        lit@ == lead(depth as nat, first),
{
    let mut lit = String::new();
    if !first {
        lit.push(',');
    }
    push_line(&mut lit, depth);
    assert(lit@ =~= lead(depth as nat, first));
    lit
}

/// What closes a list that is not empty.
fn close_text(depth: usize) -> (lit: String)
    requires
        depth <= MAX_DEPTH,
    ensures
        lit@ == close(depth as nat),
{
    let mut lit = String::new();
    push_line(&mut lit, depth);
    lit.push(']');
    assert(lit@ =~= close(depth as nat));
    lit
}

/// Reads `null` at `pos`.
fn expect_null(text: &Vec<char>, pos: usize) -> (r: Option<usize>)
    requires
        pos <= text@.len(),
    ensures
        match after(rest_from(text@, pos as int), seq!['n', 'u', 'l', 'l']) {
            Some(rest) => r matches Some(next) && pos < next <= text@.len() && rest == rest_from(
                text@,
                next as int,
            ),
            None => r is None,
        },
{
    proof {
        reveal_strlit("null");
    }
    assert("null"@ =~= seq!['n', 'u', 'l', 'l']);
    expect(text, pos, "null")
}

/// Reads the opening of a list at `pos`: `Some(true)` and the place after
/// `[]` for an empty list, `Some(false)` and the place after `[` for
/// another.
fn open_list(text: &Vec<char>, pos: usize) -> (r: Option<(bool, usize)>)
    requires
        pos <= text@.len(),
    ensures
        match after(rest_from(text@, pos as int), seq!['[', ']']) {
            Some(rest) => r matches Some((true, next)) && pos < next <= text@.len() && rest
                == rest_from(text@, next as int),
            None => match after(rest_from(text@, pos as int), seq!['[']) {
                Some(rest) => r matches Some((false, next)) && pos < next <= text@.len() && rest
                    == rest_from(text@, next as int),
                None => r is None,
            },
        },
{
    proof {
        reveal_strlit("[]");
        reveal_strlit("[");
    }
    assert("[]"@ =~= seq!['[', ']']);
    assert("["@ =~= seq!['[']);
    match expect(text, pos, "[]") {
        Some(next) => Some((true, next)),
        None => match expect(text, pos, "[") {
            Some(next) => Some((false, next)),
            None => None,
        },
    }
}

/// A list that is present.
pub open spec fn present<T>(r: Option<(Seq<T>, Seq<char>)>) -> Option<(Option<Seq<T>>, Seq<char>)> {
    match r {
        Some((values, rest)) => Some((Some(values), rest)),
        None => None,
    }
}

/// The texts of a list of strings.
pub open spec fn string_models(v: Seq<String>) -> Seq<Seq<char>> {
    Seq::new(v.len(), |i: int| v[i]@)
}

/// Reads an optional list of feature names at `pos`.
fn parse_features(text: &Vec<char>, pos: usize, depth: usize) -> (r: Option<
    (Option<Vec<String>>, usize),
>)
    requires
        pos <= text@.len(),
        depth < MAX_DEPTH,
    ensures
        match optional_at(rest_from(text@, pos as int), features_list(depth as nat)) {
            Some((value, rest)) => r matches Some((v, next)) && features_model(v) == value && pos
                < next <= text@.len() && rest == rest_from(text@, next as int),
            None => r is None,
        },
{
    match expect_null(text, pos) {
        Some(next) => {
            return Some((None, next));
        },
        None => {},
    }
    let start = match open_list(text, pos) {
        None => {
            return None;
        },
        Some((true, next)) => {
            let v: Vec<String> = Vec::new();
            assert(string_models(v@) =~= Seq::<Seq<char>>::empty());
            return Some((Some(v), next));
        },
        Some((false, next)) => next,
    };
    let ghost whole = items_at(rest_from(text@, start as int), depth as nat, string_item(), true);
    let ghost wanted = optional_at(rest_from(text@, pos as int), features_list(depth as nat));
    assert(wanted == present(whole));
    let close_lit = close_text(depth);
    let mut acc: Vec<String> = Vec::new();
    let mut cur = start;
    let mut first = true;
    proof {
        if whole is Some {
            assert(string_models(acc@) + whole.unwrap().0 =~= whole.unwrap().0);
        }
    }
    loop
        invariant
            pos < start <= cur <= text@.len(),
            depth < MAX_DEPTH,
            close_lit@ == close(depth as nat),
            wanted == optional_at(rest_from(text@, pos as int), features_list(depth as nat)),
            wanted == present(whole),
            whole == with_values(
                string_models(acc@),
                items_at(rest_from(text@, cur as int), depth as nat, string_item(), first),
            ),
        decreases text@.len() - cur,
    {
        let ghost input = rest_from(text@, cur as int);
        let lead_lit = lead_text(depth + 1, first);
        let at1 = match expect(text, cur, lead_lit.as_str()) {
            None => {
                return None;
            },
            Some(at1) => at1,
        };
        let (v, at2) = match parse_string(text, at1) {
            None => {
                return None;
            },
            Some(found) => found,
        };
        proof {
            lemma_items_next(
                input,
                depth as nat,
                string_item(),
                first,
                rest_from(text@, at1 as int),
                v@,
                rest_from(text@, at2 as int),
                string_models(acc@),
            );
            assert(string_models(acc@.push(v)) =~= string_models(acc@).push(v@));
        }
        acc.push(v);
        match expect(text, at2, close_lit.as_str()) {
            Some(at3) => {
                return Some((Some(acc), at3));
            },
            None => {},
        }
        first = false;
        cur = at2;
    }
}

/// Reads the first three members of an object at `pos`: media type, size
/// and digest.
fn parse_head(text: &Vec<char>, pos: usize, depth: usize, max: u64) -> (r: Option<
    (String, u64, String, usize),
>)
    requires
        pos <= text@.len(),
        depth < MAX_DEPTH,
    ensures
        match descriptor_head_at(rest_from(text@, pos as int), depth as nat, max as nat) {
            Some((value, rest)) => r matches Some((media_type, size, digest, next))
                && media_type@ == value.media_type && size == value.size && digest@
                == value.digest && pos < next <= text@.len() && rest == rest_from(
                text@,
                next as int,
            ),
            None => r is None,
        },
{
    let at1 = match expect(text, pos, open_with_text(depth, "\"mediaType\": ").as_str()) {
        None => {
            return None;
        },
        Some(p) => p,
    };
    let (media_type, at2) = match parse_string(text, at1) {
        None => {
            return None;
        },
        Some(found) => found,
    };
    let at3 = match expect(text, at2, member_text(depth + 1, "\"size\": ").as_str()) {
        None => {
            return None;
        },
        Some(p) => p,
    };
    let (size, at4) = match parse_number(text, at3, max) {
        None => {
            return None;
        },
        Some(found) => found,
    };
    let at5 = match expect(text, at4, member_text(depth + 1, "\"digest\": ").as_str()) {
        None => {
            return None;
        },
        Some(p) => p,
    };
    let (digest, at6) = match parse_string(text, at5) {
        None => {
            return None;
        },
        Some(found) => found,
    };
    Some((media_type, size, digest, at6))
}

/// Reads a descriptor at `pos`.
fn parse_descriptor(text: &Vec<char>, pos: usize, depth: usize, max: u64) -> (r: Option<
    (String, u64, String, usize),
>)
    requires
        pos <= text@.len(),
        depth < MAX_DEPTH,
    ensures
        match descriptor_at(rest_from(text@, pos as int), depth as nat, max as nat) {
            Some((value, rest)) => r matches Some((media_type, size, digest, next))
                && media_type@ == value.media_type && size == value.size && digest@
                == value.digest && pos < next <= text@.len() && rest == rest_from(
                text@,
                next as int,
            ),
            None => r is None,
        },
{
    let (media_type, size, digest, at6) = match parse_head(text, pos, depth, max) {
        None => {
            return None;
        },
        Some(found) => found,
    };
    match expect(text, at6, close_object_text(depth).as_str()) {
        None => None,
        Some(at7) => Some((media_type, size, digest, at7)),
    }
}

/// Reads an optional platform at `pos`.
fn parse_platform(text: &Vec<char>, pos: usize, depth: usize) -> (r: Option<
    (Option<Platform>, usize),
>)
    requires
        pos <= text@.len(),
        depth + 1 < MAX_DEPTH,
    ensures
        match optional_at(rest_from(text@, pos as int), platform_item(depth as nat)) {
            Some((value, rest)) => r matches Some((v, next)) && optional_platform_model(v)
                == value && pos < next <= text@.len() && rest == rest_from(text@, next as int),
            None => r is None,
        },
{
    match expect_null(text, pos) {
        Some(next) => {
            return Some((None, next));
        },
        None => {},
    }
    let at1 = match expect(text, pos, open_with_text(depth, "\"architecture\": ").as_str()) {
        None => {
            return None;
        },
        Some(p) => p,
    };
    let (architecture, at2) = match parse_string(text, at1) {
        None => {
            return None;
        },
        Some(found) => found,
    };
    let at3 = match expect(text, at2, member_text(depth + 1, "\"os\": ").as_str()) {
        None => {
            return None;
        },
        Some(p) => p,
    };
    let (os, at4) = match parse_string(text, at3) {
        None => {
            return None;
        },
        Some(found) => found,
    };
    let at5 = match expect(text, at4, member_text(depth + 1, "\"features\": ").as_str()) {
        None => {
            return None;
        },
        Some(p) => p,
    };
    let (features, at6) = match parse_features(text, at5, depth + 1) {
        None => {
            return None;
        },
        Some(found) => found,
    };
    match expect(text, at6, close_object_text(depth).as_str()) {
        None => None,
        Some(at7) => Some((Some(Platform { architecture, os, features }), at7)),
    }
}

/// Reads a manifest entry at `pos`.
fn parse_entry(text: &Vec<char>, pos: usize, depth: usize) -> (r: Option<
    (ManifestEntry, usize),
>)
    requires
        pos <= text@.len(),
        depth + 2 < MAX_DEPTH,
    ensures
        match entry_at(rest_from(text@, pos as int), depth as nat) {
            Some((value, rest)) => r matches Some((v, next)) && entry_model(v) == value && pos
                < next <= text@.len() && rest == rest_from(text@, next as int),
            None => r is None,
        },
{
    let (media_type, size, digest, at6) = match parse_head(text, pos, depth, 0xffff_ffff) {
        None => {
            return None;
        },
        Some(found) => found,
    };
    let at7 = match expect(text, at6, member_text(depth + 1, "\"platform\": ").as_str()) {
        None => {
            return None;
        },
        Some(p) => p,
    };
    let (platform, at8) = match parse_platform(text, at7, depth + 1) {
        None => {
            return None;
        },
        Some(found) => found,
    };
    match expect(text, at8, close_object_text(depth).as_str()) {
        None => None,
        Some(at9) => Some((ManifestEntry { media_type, size: size as u32, digest, platform }, at9)),
    }
}

/// What a list of manifest entries says.
pub open spec fn entry_models(v: Seq<ManifestEntry>) -> Seq<EntryModel> {
    Seq::new(v.len(), |i: int| entry_model(v[i]))
}

/// What a list of layers says.
pub open spec fn layer_models(v: Seq<LayerEntry>) -> Seq<DescriptorModel> {
    Seq::new(v.len(), |i: int| layer_model(v[i]))
}

/// Reads an optional list of manifest entries at `pos`.
fn parse_entries(text: &Vec<char>, pos: usize, depth: usize) -> (r: Option<
    (Option<Vec<ManifestEntry>>, usize),
>)
    requires
        pos <= text@.len(),
        depth + 3 < MAX_DEPTH,
    ensures
        match optional_at(rest_from(text@, pos as int), entries_list(depth as nat)) {
            Some((value, rest)) => r matches Some((v, next)) && entries_model(v) == value && pos
                < next <= text@.len() && rest == rest_from(text@, next as int),
            None => r is None,
        },
{
    match expect_null(text, pos) {
        Some(next) => {
            return Some((None, next));
        },
        None => {},
    }
    let start = match open_list(text, pos) {
        None => {
            return None;
        },
        Some((true, next)) => {
            let v: Vec<ManifestEntry> = Vec::new();
            assert(entry_models(v@) =~= Seq::<EntryModel>::empty());
            return Some((Some(v), next));
        },
        Some((false, next)) => next,
    };
    let ghost item = entry_item((depth + 1) as nat);
    let ghost whole = items_at(rest_from(text@, start as int), depth as nat, item, true);
    let ghost wanted = optional_at(rest_from(text@, pos as int), entries_list(depth as nat));
    assert(wanted == present(whole));
    let close_lit = close_text(depth);
    let mut acc: Vec<ManifestEntry> = Vec::new();
    let mut cur = start;
    let mut first = true;
    proof {
        if whole is Some {
            assert(entry_models(acc@) + whole.unwrap().0 =~= whole.unwrap().0);
        }
    }
    loop
        invariant
            pos < start <= cur <= text@.len(),
            depth + 3 < MAX_DEPTH,
            close_lit@ == close(depth as nat),
            item == entry_item((depth + 1) as nat),
            wanted == optional_at(rest_from(text@, pos as int), entries_list(depth as nat)),
            wanted == present(whole),
            whole == with_values(
                entry_models(acc@),
                items_at(rest_from(text@, cur as int), depth as nat, item, first),
            ),
        decreases text@.len() - cur,
    {
        let ghost input = rest_from(text@, cur as int);
        let lead_lit = lead_text(depth + 1, first);
        let at1 = match expect(text, cur, lead_lit.as_str()) {
            None => {
                return None;
            },
            Some(at1) => at1,
        };
        let (v, at2) = match parse_entry(text, at1, depth + 1) {
            None => {
                return None;
            },
            Some(found) => found,
        };
        proof {
            lemma_items_next(
                input,
                depth as nat,
                item,
                first,
                rest_from(text@, at1 as int),
                entry_model(v),
                rest_from(text@, at2 as int),
                entry_models(acc@),
            );
            assert(entry_models(acc@.push(v)) =~= entry_models(acc@).push(entry_model(v)));
        }
        acc.push(v);
        match expect(text, at2, close_lit.as_str()) {
            Some(at3) => {
                return Some((Some(acc), at3));
            },
            None => {},
        }
        first = false;
        cur = at2;
    }
}

/// Reads an optional list of layers at `pos`.
fn parse_layers(text: &Vec<char>, pos: usize, depth: usize) -> (r: Option<
    (Option<Vec<LayerEntry>>, usize),
>)
    requires
        pos <= text@.len(),
        depth + 2 < MAX_DEPTH,
    ensures
        match optional_at(rest_from(text@, pos as int), layers_list(depth as nat)) {
            Some((value, rest)) => r matches Some((v, next)) && layers_model(v) == value && pos
                < next <= text@.len() && rest == rest_from(text@, next as int),
            None => r is None,
        },
{
    match expect_null(text, pos) {
        Some(next) => {
            return Some((None, next));
        },
        None => {},
    }
    let start = match open_list(text, pos) {
        None => {
            return None;
        },
        Some((true, next)) => {
            let v: Vec<LayerEntry> = Vec::new();
            assert(layer_models(v@) =~= Seq::<DescriptorModel>::empty());
            return Some((Some(v), next));
        },
        Some((false, next)) => next,
    };
    let ghost item = layer_item((depth + 1) as nat);
    let ghost whole = items_at(rest_from(text@, start as int), depth as nat, item, true);
    let ghost wanted = optional_at(rest_from(text@, pos as int), layers_list(depth as nat));
    assert(wanted == present(whole));
    let close_lit = close_text(depth);
    let mut acc: Vec<LayerEntry> = Vec::new();
    let mut cur = start;
    let mut first = true;
    proof {
        if whole is Some {
            assert(layer_models(acc@) + whole.unwrap().0 =~= whole.unwrap().0);
        }
    }
    loop
        invariant
            pos < start <= cur <= text@.len(),
            depth + 2 < MAX_DEPTH,
            close_lit@ == close(depth as nat),
            item == layer_item((depth + 1) as nat),
            wanted == optional_at(rest_from(text@, pos as int), layers_list(depth as nat)),
            wanted == present(whole),
            whole == with_values(
                layer_models(acc@),
                items_at(rest_from(text@, cur as int), depth as nat, item, first),
            ),
        decreases text@.len() - cur,
    {
        let ghost input = rest_from(text@, cur as int);
        let lead_lit = lead_text(depth + 1, first);
        let at1 = match expect(text, cur, lead_lit.as_str()) {
            None => {
                return None;
            },
            Some(at1) => at1,
        };
        let (media_type, size, digest, at2) = match parse_descriptor(
            text,
            at1,
            depth + 1,
            0xffff_ffff,
        ) {
            None => {
                return None;
            },
            Some(found) => found,
        };
        let v = LayerEntry { media_type, size: size as u32, digest };
        proof {
            lemma_items_next(
                input,
                depth as nat,
                item,
                first,
                rest_from(text@, at1 as int),
                layer_model(v),
                rest_from(text@, at2 as int),
                layer_models(acc@),
            );
            assert(layer_models(acc@.push(v)) =~= layer_models(acc@).push(layer_model(v)));
        }
        acc.push(v);
        match expect(text, at2, close_lit.as_str()) {
            Some(at3) => {
                return Some((Some(acc), at3));
            },
            None => {},
        }
        first = false;
        cur = at2;
    }
}

/// Reads the manifest that a whole text holds.
pub fn parse_manifest(text: &Vec<char>) -> (r: Option<Manifest>)
    ensures
        match manifest_at(text@) {
            Some(value) => r matches Some(m) && manifest_model(m) == value,
            None => r is None,
        },
{
    assert(rest_from(text@, 0) =~= text@);
    let at1 = match expect(text, 0, open_with_text(0, "\"schemaVersion\": ").as_str()) {
        None => {
            return None;
        },
        Some(p) => p,
    };
    let (schema_version, at2) = match parse_number(text, at1, 0xffff_ffff) {
        None => {
            return None;
        },
        Some(found) => found,
    };
    let at3 = match expect(text, at2, member_text(1, "\"mediaType\": ").as_str()) {
        None => {
            return None;
        },
        Some(p) => p,
    };
    let (media_type, at4) = match parse_string(text, at3) {
        None => {
            return None;
        },
        Some(found) => found,
    };
    let at5 = match expect(text, at4, member_text(1, "\"config\": ").as_str()) {
        None => {
            return None;
        },
        Some(p) => p,
    };
    let (config_type, config_size, config_digest, at6) = match parse_descriptor(
        text,
        at5,
        1,
        0xffff_ffff_ffff_ffff,
    ) {
        None => {
            return None;
        },
        Some(found) => found,
    };
    let at7 = match expect(text, at6, member_text(1, "\"manifests\": ").as_str()) {
        None => {
            return None;
        },
        Some(p) => p,
    };
    let (manifests, at8) = match parse_entries(text, at7, 1) {
        None => {
            return None;
        },
        Some(found) => found,
    };
    let at9 = match expect(text, at8, member_text(1, "\"layers\": ").as_str()) {
        None => {
            return None;
        },
        Some(p) => p,
    };
    let (layers, at10) = match parse_layers(text, at9, 1) {
        None => {
            return None;
        },
        Some(found) => found,
    };
    let at11 = match expect(text, at10, close_object_text(0).as_str()) {
        None => {
            return None;
        },
        Some(p) => p,
    };
    if at11 != text.len() {
        assert(rest_from(text@, at11 as int).len() > 0);
        return None;
    }
    assert(rest_from(text@, at11 as int) =~= Seq::<char>::empty());
    Some(
        Manifest {
            schema_version: schema_version as u32,
            media_type,
            config: ManifestConfig {
                media_type: config_type,
                size: config_size,
                digest: config_digest,
            },
            manifests,
            layers,
        },
    )
}

/// Lists of feature names that say the same have the same text.
pub proof fn lemma_features_by_model(a: Option<Vec<String>>, b: Option<Vec<String>>, depth: nat)
    requires
        features_model(a) == features_model(b),
    ensures
        features_text(a, depth) == features_text(b, depth),
{
    match (a, b) {
        (Some(v), Some(w)) => {
            let x = Seq::new(v@.len(), |i: int| v@[i]@);
            let y = Seq::new(w@.len(), |i: int| w@[i]@);
            assert(x == y);
            assert(v@.len() == w@.len()) by {
                assert(x.len() == y.len());
            }
            assert forall|i: int| 0 <= i < v@.len() implies v@[i]@ == w@[i]@ by {
                assert(x[i] == y[i]);
            }
            assert(feature_texts(v@) =~= feature_texts(w@));
        },
        _ => {},
    }
}

/// Platforms that say the same have the same text.
pub proof fn lemma_platform_by_model(a: Option<Platform>, b: Option<Platform>, depth: nat)
    requires
        optional_platform_model(a) == optional_platform_model(b),
    ensures
        optional_platform_text(a, depth) == optional_platform_text(b, depth),
{
    match (a, b) {
        (Some(p), Some(q)) => {
            lemma_features_by_model(p.features, q.features, depth + 1);
        },
        _ => {},
    }
}

/// Manifest entries that say the same have the same text.
pub proof fn lemma_entry_by_model(a: ManifestEntry, b: ManifestEntry, depth: nat)
    requires
        entry_model(a) == entry_model(b),
    ensures
        entry_text(a, depth) == entry_text(b, depth),
{
    lemma_platform_by_model(a.platform, b.platform, depth + 1);
}

/// Lists of manifest entries that say the same have the same text.
pub proof fn lemma_entries_by_model(
    a: Option<Vec<ManifestEntry>>,
    b: Option<Vec<ManifestEntry>>,
    depth: nat,
)
    requires
        entries_model(a) == entries_model(b),
    ensures
        entries_text(a, depth) == entries_text(b, depth),
{
    match (a, b) {
        (Some(v), Some(w)) => {
            let x = Seq::new(v@.len(), |i: int| entry_model(v@[i]));
            let y = Seq::new(w@.len(), |i: int| entry_model(w@[i]));
            assert(x == y);
            assert(v@.len() == w@.len()) by {
                assert(x.len() == y.len());
            }
            assert forall|i: int| 0 <= i < v@.len() implies entry_text(v@[i], depth + 1)
                == entry_text(w@[i], depth + 1) by {
                assert(x[i] == y[i]);
                lemma_entry_by_model(v@[i], w@[i], depth + 1);
            }
            assert(entry_texts(v@, depth + 1) =~= entry_texts(w@, depth + 1));
        },
        _ => {},
    }
}

/// Lists of layers that say the same have the same text.
pub proof fn lemma_layers_by_model(
    a: Option<Vec<LayerEntry>>,
    b: Option<Vec<LayerEntry>>,
    depth: nat,
)
    requires
        layers_model(a) == layers_model(b),
    ensures
        layers_text(a, depth) == layers_text(b, depth),
{
    match (a, b) {
        (Some(v), Some(w)) => {
            let x = Seq::new(v@.len(), |i: int| layer_model(v@[i]));
            let y = Seq::new(w@.len(), |i: int| layer_model(w@[i]));
            assert(x == y);
            assert(v@.len() == w@.len()) by {
                assert(x.len() == y.len());
            }
            assert forall|i: int| 0 <= i < v@.len() implies layer_model(v@[i]) == layer_model(
                w@[i],
            ) by {
                assert(x[i] == y[i]);
            }
            assert(layer_texts(v@, depth + 1) =~= layer_texts(w@, depth + 1));
        },
        _ => {},
    }
}

/// Manifests that say the same have the same canonical text.
pub proof fn lemma_canonical_by_model(a: Manifest, b: Manifest)
    requires
        manifest_model(a) == manifest_model(b),
    ensures
        canonical(a) == canonical(b),
{
    lemma_entries_by_model(a.manifests, b.manifests, 1);
    lemma_layers_by_model(a.layers, b.layers, 1);
}

/// The canonical encoding is injective: manifests with the same canonical
/// text say the same.
pub proof fn lemma_canonical_injective(a: Manifest, b: Manifest)
    requires
        canonical(a) == canonical(b),
    ensures
        manifest_model(a) == manifest_model(b),
{
    lemma_manifest_round_trip(a);
    lemma_manifest_round_trip(b);
}

/// Reads a manifest from its canonical text. A text that is the canonical
/// text of no manifest is refused.
pub fn from_json_normalized(text: &str) -> (r: Result<Manifest, StorageError>)
    ensures
        r matches Ok(m) ==> canonical(m) == text@,
        r matches Err(e) ==> e == StorageError::ManifestInvalid && forall|m: Manifest|
            canonical(m) != text@,
{
    let chars = chars_of(text);
    match parse_manifest(&chars) {
        None => {
            assert forall|m: Manifest| canonical(m) != text@ by {
                lemma_manifest_round_trip(m);
            }
            Err(StorageError::ManifestInvalid)
        },
        Some(found) => {
            match to_json_normalized(&found) {
                Err(_) => Err(StorageError::ManifestInvalid),
                Ok(again) => {
                    let given = String::from_str(text);
                    if again == given {
                        Ok(found)
                    } else {
                        assert forall|m: Manifest| canonical(m) != text@ by {
                            if canonical(m) == text@ {
                                lemma_manifest_round_trip(m);
                                lemma_canonical_by_model(m, found);
                            }
                        }
                        Err(StorageError::ManifestInvalid)
                    }
                },
            }
        },
    }
}

/// `String::from_utf8`: the text that `bytes` encode, where they are
/// well-formed UTF-8.
#[verifier::external_body]
fn text_of_utf8(bytes: Vec<u8>) -> (text: Option<String>)
    ensures
        text is Some == vstd::utf8::valid_utf8(bytes@),
        text matches Some(t) ==> t@ == vstd::utf8::decode_utf8(bytes@),
{
    String::from_utf8(bytes).ok()
}

/// Reads a manifest from its canonical bytes. Bytes that are the canonical
/// bytes of no manifest are refused.
pub fn manifest_of_bytes(bytes: Vec<u8>) -> (r: Result<Manifest, StorageError>)
    ensures
        r matches Ok(m) ==> canonical_bytes(m) == bytes@,
        r matches Err(e) ==> e == StorageError::ManifestInvalid && forall|m: Manifest|
            canonical_bytes(m) != bytes@,
{
    let ghost raw = bytes@;
    match text_of_utf8(bytes) {
        None => {
            assert forall|m: Manifest| canonical_bytes(m) != raw by {
                vstd::utf8::encode_utf8_valid_utf8(canonical(m));
            }
            Err(StorageError::ManifestInvalid)
        },
        Some(text) => match from_json_normalized(text.as_str()) {
            Ok(m) => {
                proof {
                    vstd::utf8::decode_utf8_encode_utf8(raw);
                }
                Ok(m)
            },
            Err(e) => {
                assert forall|m: Manifest| canonical_bytes(m) != raw by {
                    vstd::utf8::encode_utf8_decode_utf8(canonical(m));
                }
                Err(e)
            },
        },
    }
}

} // verus!
