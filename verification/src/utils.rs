//! JSON text: the building blocks of the canonical encoding.

use crate::storage::base::StorageError;
use crate::storage::digest::hex_digit;
use crate::storage::types::manifest::{LayerEntry, Manifest, ManifestEntry, Platform};
use vstd::prelude::*;
use vstd::string::*;

verus! {

/// `String::push` appends one character.
pub assume_specification[ String::push ](s: &mut String, c: char)
    ensures
        final(s)@ == old(s)@.push(c),
;

/// The text that stands for one character inside a JSON string: a short
/// escape for the quote, the backslash and five control characters, a
/// `\u00XX` escape for the other characters below U+0020, and the character
/// itself otherwise.
pub open spec fn escaped_char(c: char) -> Seq<char> {
    if c == '"' {
        seq!['\\', '"']
    } else if c == '\\' {
        seq!['\\', '\\']
    } else if c == '\u{8}' {
        seq!['\\', 'b']
    } else if c == '\t' {
        seq!['\\', 't']
    } else if c == '\n' {
        seq!['\\', 'n']
    } else if c == '\u{c}' {
        seq!['\\', 'f']
    } else if c == '\r' {
        seq!['\\', 'r']
    } else if (c as u32) < 0x20 {
        seq!['\\', 'u', '0', '0', hex_digit(c as u32 as int / 16), hex_digit(c as u32 as int % 16)]
    } else {
        seq![c]
    }
}

/// The escaped form of a text, character by character.
pub open spec fn escaped(s: Seq<char>) -> Seq<char>
    decreases s.len(),
{
    if s.len() == 0 {
        Seq::empty()
    } else {
        escaped(s.drop_last()) + escaped_char(s.last())
    }
}

/// A JSON string: the escaped text between quotes.
pub open spec fn quoted(s: Seq<char>) -> Seq<char> {
    seq!['"'] + escaped(s) + seq!['"']
}

/// The decimal digits of a number, without leading zeros.
pub open spec fn decimal(n: nat) -> Seq<char>
    decreases n,
{
    if n < 10 {
        seq![hex_digit(n as int)]
    } else {
        decimal(n / 10).push(hex_digit((n % 10) as int))
    }
}

/// Three spaces for each level of nesting.
pub open spec fn indent(depth: nat) -> Seq<char> {
    Seq::new(3 * depth, |i: int| ' ')
}

/// The lowercase hexadecimal digit of a value below 16.
fn hex_digit_char(n: u8) -> (c: char)
    requires
        n < 16,
    ensures
        c == hex_digit(n as int),
{
    if n < 10 {
        (48u8 + n) as char
    } else {
        (87u8 + n) as char
    }
}

/// Appends the escaped form of one character.
pub fn push_escaped_char(out: &mut String, c: char)
    ensures
        final(out)@ == old(out)@ + escaped_char(c),
{
    let code: u32 = c as u32;
    if c == '"' {
        out.push('\\');
        out.push('"');
    } else if c == '\\' {
        out.push('\\');
        out.push('\\');
    } else if c == '\u{8}' {
        out.push('\\');
        out.push('b');
    } else if c == '\t' {
        out.push('\\');
        out.push('t');
    } else if c == '\n' {
        out.push('\\');
        out.push('n');
    } else if c == '\u{c}' {
        out.push('\\');
        out.push('f');
    } else if c == '\r' {
        out.push('\\');
        out.push('r');
    } else if code < 0x20 {
        out.push('\\');
        out.push('u');
        out.push('0');
        out.push('0');
        out.push(hex_digit_char((code / 16) as u8));
        out.push(hex_digit_char((code % 16) as u8));
    } else {
        out.push(c);
    }
    assert(out@ =~= old(out)@ + escaped_char(c));
}

/// Appends `text` as a JSON string.
pub fn push_quoted(out: &mut String, text: &str)
    ensures
        final(out)@ == old(out)@ + quoted(text@),
{
    out.push('"');
    for c in it: text.chars()
        invariant
            it.seq() == text@,
            out@ == old(out)@.push('"') + escaped(it.seq().take(it.index() as int)),
    {
        assert(it.seq().take(it.index() + 1).drop_last() =~= it.seq().take(it.index() as int));
        push_escaped_char(out, c);
    }
    assert(text@.take(text@.len() as int) =~= text@);
    out.push('"');
    assert(out@ =~= old(out)@ + quoted(text@));
}

/// Appends the decimal digits of `n`.
pub fn push_decimal(out: &mut String, n: u64)
    ensures
        final(out)@ == old(out)@ + decimal(n as nat),
    decreases n,
{
    if n >= 10 {
        push_decimal(out, n / 10);
    }
    out.push(hex_digit_char((n % 10) as u8));
    assert(out@ =~= old(out)@ + decimal(n as nat));
}

/// Appends the indentation of `depth` levels.
fn push_indent(out: &mut String, depth: usize)
    requires
        depth <= MAX_DEPTH,
    ensures
        final(out)@ == old(out)@ + indent(depth as nat),
{
    let mut i: usize = 0;
    while i < depth
        invariant
            i <= depth <= MAX_DEPTH,
            out@ == old(out)@ + indent(i as nat),
        decreases depth - i,
    {
        out.push(' ');
        out.push(' ');
        out.push(' ');
        assert(out@ =~= old(out)@ + indent((i + 1) as nat));
        i += 1;
    }
    assert(old(out)@ + indent(0nat) =~= old(out)@);
}

/// A line break and the indentation of `depth` levels.
pub open spec fn line(depth: nat) -> Seq<char> {
    seq!['\n'] + indent(depth)
}

/// What stands before the value of an object's member: a comma unless
/// the member is the first, a line break, the indentation, and the key
/// with its colon.
pub open spec fn member(first: bool, depth: nat, key: Seq<char>) -> Seq<char> {
    if first {
        line(depth) + key
    } else {
        seq![','] + line(depth) + key
    }
}

/// The members of a list, each on a line of its own, with commas between
/// them.
pub open spec fn items(texts: Seq<Seq<char>>, depth: nat) -> Seq<char>
    decreases texts.len(),
{
    if texts.len() == 0 {
        Seq::empty()
    } else if texts.len() == 1 {
        line(depth) + texts[0]
    } else {
        items(texts.drop_last(), depth) + seq![','] + line(depth) + texts.last()
    }
}

/// A list at `depth`: `[]` where it is empty, else its members at the
/// next depth between brackets.
pub open spec fn list(texts: Seq<Seq<char>>, depth: nat) -> Seq<char> {
    if texts.len() == 0 {
        "[]"@
    } else {
        seq!['['] + items(texts, depth + 1) + line(depth) + seq![']']
    }
}

/// A descriptor at `depth`: media type, size and digest.
pub open spec fn descriptor(
    media_type: Seq<char>,
    size: nat,
    digest: Seq<char>,
    depth: nat,
) -> Seq<char> {
    seq!['{'] + member(true, depth + 1, "\"mediaType\": "@) + quoted(media_type) + member(
        false,
        depth + 1,
        "\"size\": "@,
    ) + decimal(size) + member(false, depth + 1, "\"digest\": "@) + quoted(digest) + line(depth)
        + seq!['}']
}

/// The texts of a list of feature names.
pub open spec fn feature_texts(features: Seq<String>) -> Seq<Seq<char>> {
    Seq::new(features.len(), |i: int| quoted(features[i]@))
}

/// An optional list of feature names at `depth`.
pub open spec fn features_text(features: Option<Vec<String>>, depth: nat) -> Seq<char> {
    match features {
        None => "null"@,
        Some(v) => list(feature_texts(v@), depth),
    }
}

/// A platform at `depth`.
pub open spec fn platform_text(p: Platform, depth: nat) -> Seq<char> {
    seq!['{'] + member(true, depth + 1, "\"architecture\": "@) + quoted(p.architecture@) + member(
        false,
        depth + 1,
        "\"os\": "@,
    ) + quoted(p.os@) + member(false, depth + 1, "\"features\": "@) + features_text(
        p.features,
        depth + 1,
    ) + line(depth) + seq!['}']
}

/// An optional platform at `depth`.
pub open spec fn optional_platform_text(p: Option<Platform>, depth: nat) -> Seq<char> {
    match p {
        None => "null"@,
        Some(p) => platform_text(p, depth),
    }
}

/// A manifest entry at `depth`.
pub open spec fn entry_text(e: ManifestEntry, depth: nat) -> Seq<char> {
    seq!['{'] + member(true, depth + 1, "\"mediaType\": "@) + quoted(e.media_type@) + member(
        false,
        depth + 1,
        "\"size\": "@,
    ) + decimal(e.size as nat) + member(false, depth + 1, "\"digest\": "@) + quoted(e.digest@)
        + member(false, depth + 1, "\"platform\": "@) + optional_platform_text(
        e.platform,
        depth + 1,
    ) + line(depth) + seq!['}']
}

/// The texts of a list of manifest entries, each at `depth`.
pub open spec fn entry_texts(entries: Seq<ManifestEntry>, depth: nat) -> Seq<Seq<char>> {
    Seq::new(entries.len(), |i: int| entry_text(entries[i], depth))
}

/// An optional list of manifest entries at `depth`.
pub open spec fn entries_text(entries: Option<Vec<ManifestEntry>>, depth: nat) -> Seq<char> {
    match entries {
        None => "null"@,
        Some(v) => list(entry_texts(v@, depth + 1), depth),
    }
}

/// The texts of a list of layers, each at `depth`.
pub open spec fn layer_texts(layers: Seq<LayerEntry>, depth: nat) -> Seq<Seq<char>> {
    Seq::new(
        layers.len(),
        |i: int| descriptor(layers[i].media_type@, layers[i].size as nat, layers[i].digest@, depth),
    )
}

/// An optional list of layers at `depth`.
pub open spec fn layers_text(layers: Option<Vec<LayerEntry>>, depth: nat) -> Seq<char> {
    match layers {
        None => "null"@,
        Some(v) => list(layer_texts(v@, depth + 1), depth),
    }
}

/// The canonical text of a manifest: its members in a fixed order, each
/// on a line of its own, indented by three spaces for each level, with
/// `null` for what is absent.
pub open spec fn canonical(m: Manifest) -> Seq<char> {
    seq!['{'] + member(true, 1, "\"schemaVersion\": "@) + decimal(m.schema_version as nat)
        + member(false, 1, "\"mediaType\": "@) + quoted(m.media_type@) + member(
        false,
        1,
        "\"config\": "@,
    ) + descriptor(m.config.media_type@, m.config.size as nat, m.config.digest@, 1) + member(
        false,
        1,
        "\"manifests\": "@,
    ) + entries_text(m.manifests, 1) + member(false, 1, "\"layers\": "@) + layers_text(
        m.layers,
        1,
    ) + line(0) + seq!['}']
}

/// The canonical bytes of a manifest: its canonical text in UTF-8.
pub open spec fn canonical_bytes(m: Manifest) -> Seq<u8> {
    vstd::utf8::encode_utf8(canonical(m))
}

/// The deepest nesting that a text is indented to.
pub(crate) const MAX_DEPTH: usize = 1000;

/// Appends a line break and the indentation of `depth` levels.
pub(crate) fn push_line(out: &mut String, depth: usize)
    requires
        depth <= MAX_DEPTH,
    ensures
        final(out)@ == old(out)@ + line(depth as nat),
{
    out.push('\n');
    push_indent(out, depth);
    assert(out@ =~= old(out)@ + line(depth as nat));
}

/// Appends what stands before the value of an object's member.
pub(crate) fn push_member(out: &mut String, first: bool, depth: usize, key: &str)
    requires
        depth <= MAX_DEPTH,
    ensures
        final(out)@ == old(out)@ + member(first, depth as nat, key@),
{
    if !first {
        out.push(',');
    }
    push_line(out, depth);
    out.append(key);
    assert(out@ =~= old(out)@ + member(first, depth as nat, key@));
}

/// Appends what stands before a member of a list.
fn push_item_start(out: &mut String, first: bool, depth: usize)
    requires
        depth <= MAX_DEPTH,
    ensures
        final(out)@ == old(out)@ + (if first {
            line(depth as nat)
        } else {
            seq![','] + line(depth as nat)
        }),
{
    if !first {
        out.push(',');
    }
    push_line(out, depth);
    assert(out@ =~= old(out)@ + (if first {
        line(depth as nat)
    } else {
        seq![','] + line(depth as nat)
    }));
}

/// One more member extends the text of a list's members.
proof fn lemma_items_step(texts: Seq<Seq<char>>, depth: nat, i: int)
    requires
        0 <= i < texts.len(),
    ensures
        items(texts.take(i + 1), depth) == items(texts.take(i), depth) + (if i == 0 {
            line(depth)
        } else {
            seq![','] + line(depth)
        }) + texts[i],
{
    let next = texts.take(i + 1);
    assert(next.drop_last() =~= texts.take(i));
    assert(next.last() == texts[i]);
    if i == 0 {
        assert(items(texts.take(0), depth) =~= Seq::<char>::empty());
        assert(items(next, depth) =~= Seq::<char>::empty() + line(depth) + texts[0]);
    } else {
        assert(items(next, depth) =~= items(texts.take(i), depth) + (seq![','] + line(depth))
            + texts[i]);
    }
}

/// Appends a descriptor.
fn push_descriptor(out: &mut String, media_type: &str, size: u64, digest: &str, depth: usize)
    requires
        depth < MAX_DEPTH,
    ensures
        final(out)@ == old(out)@ + descriptor(media_type@, size as nat, digest@, depth as nat),
{
    out.push('{');
    push_member(out, true, depth + 1, "\"mediaType\": ");
    push_quoted(out, media_type);
    push_member(out, false, depth + 1, "\"size\": ");
    push_decimal(out, size);
    push_member(out, false, depth + 1, "\"digest\": ");
    push_quoted(out, digest);
    push_line(out, depth);
    out.push('}');
    assert(out@ =~= old(out)@ + descriptor(media_type@, size as nat, digest@, depth as nat));
}

/// Appends an optional list of feature names.
fn push_features(out: &mut String, features: &Option<Vec<String>>, depth: usize)
    requires
        depth < MAX_DEPTH,
    ensures
        final(out)@ == old(out)@ + features_text(*features, depth as nat),
{
    match features {
        None => {
            out.append("null");
        },
        Some(v) => {
            if v.len() == 0 {
                out.append("[]");
            } else {
                let ghost texts = feature_texts(v@);
                out.push('[');
                let mut i: usize = 0;
                assert(items(texts.take(0), (depth + 1) as nat) =~= Seq::<char>::empty());
                while i < v.len()
                    invariant
                        i <= v@.len(),
                        depth < MAX_DEPTH,
                        texts == feature_texts(v@),
                        out@ == old(out)@.push('[') + items(
                            texts.take(i as int),
                            (depth + 1) as nat,
                        ),
                    decreases v@.len() - i,
                {
                    proof {
                        lemma_items_step(texts, (depth + 1) as nat, i as int);
                    }
                    push_item_start(out, i == 0, depth + 1);
                    push_quoted(out, v[i].as_str());
                    assert(out@ =~= old(out)@.push('[') + items(
                        texts.take(i + 1),
                        (depth + 1) as nat,
                    ));
                    i += 1;
                }
                assert(texts.take(i as int) =~= texts);
                push_line(out, depth);
                out.push(']');
                assert(out@ =~= old(out)@ + list(texts, depth as nat));
            }
        },
    }
}

/// Appends an optional platform.
fn push_platform(out: &mut String, platform: &Option<Platform>, depth: usize)
    requires
        depth + 1 < MAX_DEPTH,
    ensures
        final(out)@ == old(out)@ + optional_platform_text(*platform, depth as nat),
{
    match platform {
        None => {
            out.append("null");
        },
        Some(p) => {
            out.push('{');
            push_member(out, true, depth + 1, "\"architecture\": ");
            push_quoted(out, p.architecture.as_str());
            push_member(out, false, depth + 1, "\"os\": ");
            push_quoted(out, p.os.as_str());
            push_member(out, false, depth + 1, "\"features\": ");
            push_features(out, &p.features, depth + 1);
            push_line(out, depth);
            out.push('}');
            assert(out@ =~= old(out)@ + platform_text(*p, depth as nat));
        },
    }
}

/// Appends a manifest entry.
fn push_entry(out: &mut String, e: &ManifestEntry, depth: usize)
    requires
        depth + 2 < MAX_DEPTH,
    ensures
        final(out)@ == old(out)@ + entry_text(*e, depth as nat),
{
    out.push('{');
    push_member(out, true, depth + 1, "\"mediaType\": ");
    push_quoted(out, e.media_type.as_str());
    push_member(out, false, depth + 1, "\"size\": ");
    push_decimal(out, e.size as u64);
    push_member(out, false, depth + 1, "\"digest\": ");
    push_quoted(out, e.digest.as_str());
    push_member(out, false, depth + 1, "\"platform\": ");
    push_platform(out, &e.platform, depth + 1);
    push_line(out, depth);
    out.push('}');
    assert(out@ =~= old(out)@ + entry_text(*e, depth as nat));
}

/// Appends an optional list of manifest entries.
fn push_entries(out: &mut String, entries: &Option<Vec<ManifestEntry>>, depth: usize)
    requires
        depth + 3 < MAX_DEPTH,
    ensures
        final(out)@ == old(out)@ + entries_text(*entries, depth as nat),
{
    match entries {
        None => {
            out.append("null");
        },
        Some(v) => {
            if v.len() == 0 {
                out.append("[]");
            } else {
                let ghost texts = entry_texts(v@, (depth + 1) as nat);
                out.push('[');
                let mut i: usize = 0;
                assert(items(texts.take(0), (depth + 1) as nat) =~= Seq::<char>::empty());
                while i < v.len()
                    invariant
                        i <= v@.len(),
                        depth + 3 < MAX_DEPTH,
                        texts == entry_texts(v@, (depth + 1) as nat),
                        out@ == old(out)@.push('[') + items(
                            texts.take(i as int),
                            (depth + 1) as nat,
                        ),
                    decreases v@.len() - i,
                {
                    proof {
                        lemma_items_step(texts, (depth + 1) as nat, i as int);
                    }
                    push_item_start(out, i == 0, depth + 1);
                    push_entry(out, &v[i], depth + 1);
                    assert(out@ =~= old(out)@.push('[') + items(
                        texts.take(i + 1),
                        (depth + 1) as nat,
                    ));
                    i += 1;
                }
                assert(texts.take(i as int) =~= texts);
                push_line(out, depth);
                out.push(']');
                assert(out@ =~= old(out)@ + list(texts, depth as nat));
            }
        },
    }
}

/// Appends an optional list of layers.
fn push_layers(out: &mut String, layers: &Option<Vec<LayerEntry>>, depth: usize)
    requires
        depth + 2 < MAX_DEPTH,
    ensures
        final(out)@ == old(out)@ + layers_text(*layers, depth as nat),
{
    match layers {
        None => {
            out.append("null");
        },
        Some(v) => {
            if v.len() == 0 {
                out.append("[]");
            } else {
                let ghost texts = layer_texts(v@, (depth + 1) as nat);
                out.push('[');
                let mut i: usize = 0;
                assert(items(texts.take(0), (depth + 1) as nat) =~= Seq::<char>::empty());
                while i < v.len()
                    invariant
                        i <= v@.len(),
                        depth + 2 < MAX_DEPTH,
                        texts == layer_texts(v@, (depth + 1) as nat),
                        out@ == old(out)@.push('[') + items(
                            texts.take(i as int),
                            (depth + 1) as nat,
                        ),
                    decreases v@.len() - i,
                {
                    proof {
                        lemma_items_step(texts, (depth + 1) as nat, i as int);
                    }
                    push_item_start(out, i == 0, depth + 1);
                    push_descriptor(
                        out,
                        v[i].media_type.as_str(),
                        v[i].size as u64,
                        v[i].digest.as_str(),
                        depth + 1,
                    );
                    assert(out@ =~= old(out)@.push('[') + items(
                        texts.take(i + 1),
                        (depth + 1) as nat,
                    ));
                    i += 1;
                }
                assert(texts.take(i as int) =~= texts);
                push_line(out, depth);
                out.push(']');
                assert(out@ =~= old(out)@ + list(texts, depth as nat));
            }
        },
    }
}

/// The canonical text of a manifest. Equal manifests give equal texts,
/// whatever the order and spacing they were read in; the encoding never
/// fails.
pub fn to_json_normalized(manifest: &Manifest) -> (r: Result<String, StorageError>)
    ensures
        r matches Ok(text) && text@ == canonical(*manifest),
{
    let mut out = String::new();
    out.push('{');
    push_member(&mut out, true, 1, "\"schemaVersion\": ");
    push_decimal(&mut out, manifest.schema_version as u64);
    push_member(&mut out, false, 1, "\"mediaType\": ");
    push_quoted(&mut out, manifest.media_type.as_str());
    push_member(&mut out, false, 1, "\"config\": ");
    push_descriptor(
        &mut out,
        manifest.config.media_type.as_str(),
        manifest.config.size,
        manifest.config.digest.as_str(),
        1,
    );
    push_member(&mut out, false, 1, "\"manifests\": ");
    push_entries(&mut out, &manifest.manifests, 1);
    push_member(&mut out, false, 1, "\"layers\": ");
    push_layers(&mut out, &manifest.layers, 1);
    push_line(&mut out, 0);
    out.push('}');
    assert(out@ =~= canonical(*manifest));
    Ok(out)
}

} // verus!
