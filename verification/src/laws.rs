//! Properties of the library that relate several of its functions, or that
//! hold of every input.
use vstd::prelude::*;

use crate::data_type::{attribute_data_type, index_data_type, DataType};
use crate::decoded::AttributeDataType;
use crate::handler::{rotates_meshes, spec_attribute_action, AttributeAction, LoaderSettings};
use crate::decoded::DracoDecodeConfig;
use crate::document::{
    Dimensions, SourceView, first_attribute, entries_map, entry_values, spec_attribute_map, DecodedDocument, SourcePrimitive,
};
use crate::extension::{
    describes_decoded, indices_accessor, spec_link_map, valid_semantic, view_bytes, view_in_bounds,
};
use crate::semantic::{
    all_digits, color_prefix, decimal_value, joints_prefix, normal_name, position_name,
    spec_checked, spec_parse_u32, tangent_name, texcoord_prefix, weights_prefix, Checked,
    SemanticView,
};

verus! {

/// The character of a decimal digit.
pub open spec fn digit_char(d: nat) -> char {
    seq!['0', '1', '2', '3', '4', '5', '6', '7', '8', '9'][d as int]
}

/// `n` written in decimal without leading zeros.
pub open spec fn decimal(n: nat) -> Seq<char>
    decreases n,
{
    if n < 10 {
        seq![digit_char(n)]
    } else {
        decimal(n / 10).push(digit_char(n % 10))
    }
}

proof fn lemma_digit_char(d: nat)
    requires
        d < 10,
    ensures
        crate::semantic::is_digit(digit_char(d)),
        crate::semantic::digit_value(digit_char(d)) == d,
{
    let t = seq!['0', '1', '2', '3', '4', '5', '6', '7', '8', '9'];
    assert(t[0] == '0' && t[1] == '1' && t[2] == '2' && t[3] == '3' && t[4] == '4');
    assert(t[5] == '5' && t[6] == '6' && t[7] == '7' && t[8] == '8' && t[9] == '9');
}

/// Decimal text reads back as the number it writes.
proof fn lemma_decimal(n: nat)
    ensures
        decimal(n).len() > 0,
        all_digits(decimal(n)),
        decimal_value(decimal(n)) == n,
    decreases n,
{
    if n < 10 {
        lemma_digit_char(n);
        assert(decimal(n).drop_last() =~= Seq::<char>::empty());
        assert(decimal_value(Seq::<char>::empty()) == 0);
        assert(decimal(n).last() == digit_char(n));
    } else {
        lemma_decimal(n / 10);
        lemma_digit_char(n % 10);
        let s = decimal(n);
        assert(s.drop_last() =~= decimal(n / 10));
        assert(s.last() == digit_char(n % 10));
        assert(decimal_value(s) == (n / 10) * 10 + n % 10);
        assert((n / 10) * 10 + n % 10 == n) by (nonlinear_arith);
        assert forall|i: int| 0 <= i < s.len() implies #[trigger] crate::semantic::is_digit(s[i]) by {
            if i < s.len() - 1 {
                assert(s[i] == decimal(n / 10)[i]);
            }
        }
    }
}

/// Every set index written in decimal reads back as that index.
pub proof fn decimal_set_index_reads_back(n: u32)
    ensures
        spec_parse_u32(decimal(n as nat)) == Some(n),
{
    lemma_decimal(n as nat);
    let s = decimal(n as nat);
    assert(crate::semantic::is_digit(s[0]));
    assert(('+' as u32) == 43);
    assert(s[0] != '+');
}

proof fn lemma_prefixed(p: Seq<char>, d: Seq<char>)
    ensures
        crate::semantic::has_prefix(p + d, p),
        (p + d).skip(p.len() as int) == d,
        forall|i: int| 0 <= i < p.len() ==> (p + d)[i] == p[i],
{
    assert((p + d).take(p.len() as int) =~= p);
    assert((p + d).skip(p.len() as int) =~= d);
}

proof fn lemma_color_name(n: u32)
    ensures
        spec_checked(color_prefix() + decimal(n as nat)) == Checked::Valid(SemanticView::Colors(n)),
{
    let d = decimal(n as nat);
    decimal_set_index_reads_back(n);
    let c = color_prefix() + d;
    lemma_prefixed(color_prefix(), d);
    assert(c[0] != normal_name()[0]);
    assert(c[0] != position_name()[0]);
    assert(c[0] != tangent_name()[0]);
    assert(c[0] != '_');
}

proof fn lemma_texcoord_name(n: u32)
    ensures
        spec_checked(texcoord_prefix() + decimal(n as nat)) == Checked::Valid(
            SemanticView::TexCoords(n),
        ),
{
    let d = decimal(n as nat);
    decimal_set_index_reads_back(n);
    let t = texcoord_prefix() + d;
    lemma_prefixed(texcoord_prefix(), d);
    assert(t[0] != normal_name()[0]);
    assert(t[0] != position_name()[0]);
    assert(t[1] != tangent_name()[1]);
    assert(t[0] != '_');
    assert(t[0] != color_prefix()[0]);
}

proof fn lemma_joints_name(n: u32)
    ensures
        spec_checked(joints_prefix() + decimal(n as nat)) == Checked::Valid(SemanticView::Joints(n)),
{
    let d = decimal(n as nat);
    decimal_set_index_reads_back(n);
    let j = joints_prefix() + d;
    lemma_prefixed(joints_prefix(), d);
    assert(j[0] != normal_name()[0]);
    assert(j[0] != position_name()[0]);
    assert(j[0] != tangent_name()[0]);
    assert(j[0] != '_');
    assert(j[0] != color_prefix()[0]);
    assert(j[0] != texcoord_prefix()[0]);
}

proof fn lemma_weights_name(n: u32)
    ensures
        spec_checked(weights_prefix() + decimal(n as nat)) == Checked::Valid(
            SemanticView::Weights(n),
        ),
{
    let d = decimal(n as nat);
    decimal_set_index_reads_back(n);
    let w = weights_prefix() + d;
    lemma_prefixed(weights_prefix(), d);
    assert(w[0] != normal_name()[0]);
    assert(w[0] != position_name()[0]);
    assert(w[0] != tangent_name()[0]);
    assert(w[0] != '_');
    assert(w[0] != color_prefix()[0]);
    assert(w[0] != texcoord_prefix()[0]);
    assert(w[0] != joints_prefix()[0]);
}

/// Every attribute name of an indexed family, `COLOR_n`, `TEXCOORD_n`,
/// `JOINTS_n` or `WEIGHTS_n`, with the set index `n` written in decimal, is
/// read as the attribute of that family and set.
pub proof fn indexed_names_are_recognised(n: u32)
    ensures
        spec_checked(seq!['C', 'O', 'L', 'O', 'R', '_'] + decimal(n as nat)) == Checked::Valid(
            SemanticView::Colors(n),
        ),
        spec_checked(seq!['T', 'E', 'X', 'C', 'O', 'O', 'R', 'D', '_'] + decimal(n as nat))
            == Checked::Valid(SemanticView::TexCoords(n)),
        spec_checked(seq!['J', 'O', 'I', 'N', 'T', 'S', '_'] + decimal(n as nat)) == Checked::Valid(
            SemanticView::Joints(n),
        ),
        spec_checked(seq!['W', 'E', 'I', 'G', 'H', 'T', 'S', '_'] + decimal(n as nat))
            == Checked::Valid(SemanticView::Weights(n)),
{
    assert(color_prefix() =~= seq!['C', 'O', 'L', 'O', 'R', '_']);
    assert(texcoord_prefix() =~= seq!['T', 'E', 'X', 'C', 'O', 'O', 'R', 'D', '_']);
    assert(joints_prefix() =~= seq!['J', 'O', 'I', 'N', 'T', 'S', '_']);
    assert(weights_prefix() =~= seq!['W', 'E', 'I', 'G', 'H', 'T', 'S', '_']);
    lemma_color_name(n);
    lemma_texcoord_name(n);
    lemma_joints_name(n);
    lemma_weights_name(n);
}

/// The three fixed attribute names are read as positions, normals and tangents.
pub proof fn fixed_names_are_recognised()
    ensures
        spec_checked(seq!['P', 'O', 'S', 'I', 'T', 'I', 'O', 'N']) == Checked::Valid(
            SemanticView::Positions,
        ),
        spec_checked(seq!['N', 'O', 'R', 'M', 'A', 'L']) == Checked::Valid(SemanticView::Normals),
        spec_checked(seq!['T', 'A', 'N', 'G', 'E', 'N', 'T']) == Checked::Valid(
            SemanticView::Tangents,
        ),
{
    assert(normal_name() =~= seq!['N', 'O', 'R', 'M', 'A', 'L']);
    assert(position_name() =~= seq!['P', 'O', 'S', 'I', 'T', 'I', 'O', 'N']);
    assert(tangent_name() =~= seq!['T', 'A', 'N', 'G', 'E', 'N', 'T']);
    assert(position_name() != normal_name()) by {
        assert(position_name()[0] != normal_name()[0]);
    }
    assert(tangent_name() != normal_name()) by {
        assert(tangent_name()[0] != normal_name()[0]);
    }
    assert(tangent_name() != position_name()) by {
        assert(tangent_name()[0] != position_name()[0]);
    }
}

/// A set index is one or more decimal digits, optionally after one `+`, whose
/// value fits in 32 bits: nothing else is accepted, and a `+` before the
/// digits does not change the value.
pub proof fn set_index_syntax(s: Seq<char>, n: nat)
    ensures
        spec_parse_u32(Seq::<char>::empty()) is None,
        spec_parse_u32(seq!['+']) is None,
        n > u32::MAX ==> spec_parse_u32(decimal(n)) is None,
        n <= u32::MAX ==> spec_parse_u32(seq!['+'] + decimal(n)) == Some(n as u32),
        forall|i: int|
            0 <= i < s.len() && !(i == 0 && s[i] == '+') && ((s[i] as u32) < 48 || (s[i] as u32) > 57)
                ==> #[trigger] spec_parse_u32(s) is None,
{
    lemma_decimal(n);
    let p = seq!['+'] + decimal(n);
    assert(p[0] == '+');
    assert(p.skip(1) =~= decimal(n));
    let d = decimal(n);
    assert(crate::semantic::is_digit(d[0]));
    assert(('+' as u32) == 43);
    assert(d[0] != '+');
    assert forall|i: int|
        0 <= i < s.len() && !(i == 0 && s[i] == '+') && ((s[i] as u32) < 48 || (s[i] as u32) > 57)
            implies #[trigger] spec_parse_u32(s) is None by {
        let ds = crate::semantic::unsigned_digits(s);
        if s.len() > 0 && s[0] == '+' {
            assert(i > 0);
            assert(ds[i - 1] == s[i]);
            assert(!crate::semantic::is_digit(ds[i - 1]));
        } else {
            assert(ds[i] == s[i]);
            assert(!crate::semantic::is_digit(ds[i]));
        }
    }
}

/// Only names of the recognised forms are valid: the three fixed names, a
/// name starting with an underscore, and the four indexed families.
pub proof fn only_recognised_forms_are_valid(s: Seq<char>)
    ensures
        spec_checked(s) is Valid ==> {
            ||| s == seq!['P', 'O', 'S', 'I', 'T', 'I', 'O', 'N']
            ||| s == seq!['N', 'O', 'R', 'M', 'A', 'L']
            ||| s == seq!['T', 'A', 'N', 'G', 'E', 'N', 'T']
            ||| (s.len() > 0 && s[0] == '_')
            ||| (s.len() > 6 && s.take(6) == seq!['C', 'O', 'L', 'O', 'R', '_'])
            ||| (s.len() > 9 && s.take(9) == seq!['T', 'E', 'X', 'C', 'O', 'O', 'R', 'D', '_'])
            ||| (s.len() > 7 && s.take(7) == seq!['J', 'O', 'I', 'N', 'T', 'S', '_'])
            ||| (s.len() > 8 && s.take(8) == seq!['W', 'E', 'I', 'G', 'H', 'T', 'S', '_'])
        },
{
    assert(normal_name() =~= seq!['N', 'O', 'R', 'M', 'A', 'L']);
    assert(position_name() =~= seq!['P', 'O', 'S', 'I', 'T', 'I', 'O', 'N']);
    assert(tangent_name() =~= seq!['T', 'A', 'N', 'G', 'E', 'N', 'T']);
    assert(color_prefix() =~= seq!['C', 'O', 'L', 'O', 'R', '_']);
    assert(texcoord_prefix() =~= seq!['T', 'E', 'X', 'C', 'O', 'O', 'R', 'D', '_']);
    assert(joints_prefix() =~= seq!['J', 'O', 'I', 'N', 'T', 'S', '_']);
    assert(weights_prefix() =~= seq!['W', 'E', 'I', 'G', 'H', 'T', 'S', '_']);
    if spec_checked(s) is Valid && s != normal_name() && s != position_name() && s != tangent_name()
        && !(s.len() > 0 && s[0] == '_') {
        let p = if crate::semantic::has_prefix(s, color_prefix()) {
            color_prefix()
        } else if crate::semantic::has_prefix(s, texcoord_prefix()) {
            texcoord_prefix()
        } else if crate::semantic::has_prefix(s, joints_prefix()) {
            joints_prefix()
        } else {
            weights_prefix()
        };
        assert(crate::semantic::has_prefix(s, p));
        assert(spec_parse_u32(s.skip(p.len() as int)) is Some);
        assert(s.skip(p.len() as int).len() > 0);
    }
}

/// Every name that starts with an underscore is an application-specific
/// attribute, named by the rest of the name.
pub proof fn underscore_names_are_extras(name: Seq<char>)
    ensures
        spec_checked(seq!['_'] + name) == Checked::Valid(SemanticView::Extras(name)),
{
    let s = seq!['_'] + name;
    assert(s[0] == '_');
    assert(s[0] != normal_name()[0]);
    assert(s[0] != position_name()[0]);
    assert(s[0] != tangent_name()[0]);
    assert(s.skip(1) =~= name);
}

/// No later entry lists the Draco attribute id of entry `i`.
pub open spec fn last_for_id(entries: Seq<(Seq<char>, usize)>, i: int) -> bool {
    forall|j: int| i < j < entries.len() ==> #[trigger] entries[j].1 != entries[i].1
}

/// The link of an extension maps exactly the Draco attribute ids that the
/// extension lists, each to the semantic named by the last entry that lists it.
pub proof fn link_maps_listed_ids(entries: Seq<(Seq<char>, usize)>)
    ensures
        forall|k: usize|
            #[trigger] spec_link_map(entries).contains_key(k) <==> exists|i: int|
                0 <= i < entries.len() && #[trigger] entries[i].1 == k,
        forall|i: int|
            0 <= i < entries.len() && last_for_id(entries, i) ==> spec_link_map(entries)[#[trigger] entries[i].1]
                == valid_semantic(entries[i].0),
    decreases entries.len(),
{
    if entries.len() > 0 {
        let d = entries.drop_last();
        link_maps_listed_ids(d);
        assert forall|k: usize|
            #[trigger] spec_link_map(entries).contains_key(k) <==> exists|i: int|
                0 <= i < entries.len() && #[trigger] entries[i].1 == k by {
            if spec_link_map(entries).contains_key(k) && k != entries.last().1 {
                let i = choose|i: int| 0 <= i < d.len() && #[trigger] d[i].1 == k;
                assert(entries[i].1 == k);
            }
            if exists|i: int| 0 <= i < entries.len() && #[trigger] entries[i].1 == k {
                let i = choose|i: int| 0 <= i < entries.len() && #[trigger] entries[i].1 == k;
                if i < d.len() {
                    assert(d[i].1 == k);
                }
            }
        }
        assert forall|i: int|
            0 <= i < entries.len() && last_for_id(entries, i) implies spec_link_map(entries)[#[trigger] entries[i].1]
                == valid_semantic(entries[i].0) by {
            if i < d.len() {
                assert(entries[entries.len() - 1].1 != entries[i].1);
                assert(d[i] == entries[i]);
                assert(last_for_id(d, i)) by {
                    assert forall|j: int| i < j < d.len() implies #[trigger] d[j].1 != d[i].1 by {
                        assert(d[j] == entries[j]);
                    }
                }
            }
        }
    }
}

/// The semantic-to-accessor map of a decoded primitive holds exactly the
/// semantics of its decoded attributes; each leads to the accessor of the last
/// decoded attribute with that semantic.
pub proof fn attribute_map_holds_last_accessor(link: Map<usize, SemanticView>, n: nat, s: SemanticView)
    requires
        n <= usize::MAX,
    ensures
        spec_attribute_map(link, n).contains_key(s) <==> exists|k: usize| k < n && #[trigger] link[k] == s,
        spec_attribute_map(link, n).contains_key(s) ==> ({
            let v = spec_attribute_map(link, n)[s];
            &&& 1 <= v <= n
            &&& link[(v - 1) as usize] == s
            &&& forall|k: usize| v <= k < n ==> #[trigger] link[k] != s
        }),
    decreases n,
{
    if n > 0 {
        attribute_map_holds_last_accessor(link, (n - 1) as nat, s);
        let last = (n - 1) as usize;
        if link[last] != s {
            if exists|k: usize| k < n && #[trigger] link[k] == s {
                let k = choose|k: usize| k < n && #[trigger] link[k] == s;
                assert(k < n - 1);
            }
        }
    }
}

/// Where each Draco attribute id is listed once and no two entries name the
/// same semantic, the decoded primitive finds each decoded attribute under the
/// semantic that the extension names for its id, and reads it from the bytes
/// that the decoder reports for that attribute.
pub proof fn decoded_attribute_keeps_its_semantic(
    entries: Seq<(Seq<char>, usize)>,
    doc: DecodedDocument,
    source: &SourcePrimitive,
    config: &DracoDecodeConfig,
    j: int,
)
    requires
        describes_decoded(&doc, spec_link_map(entries), source, config),
        forall|a: int, b: int|
            0 <= a < b < entries.len() ==> #[trigger] entries[a].1 != #[trigger] entries[b].1,
        forall|a: int, b: int|
            0 <= a < b < entries.len() ==> valid_semantic(#[trigger] entries[a].0) != valid_semantic(
                #[trigger] entries[b].0,
            ),
        0 <= j < entries.len(),
        entries[j].1 < config.attributes@.len(),
    ensures
        ({
            let prim = doc.meshes@[0].primitives@[0];
            let m = entries_map(entry_values(prim.attributes@));
            let id = entries[j].1;
            &&& m.contains_key(valid_semantic(entries[j].0))
            &&& m[valid_semantic(entries[j].0)] == id + 1
            &&& doc.accessors@[id + 1].buffer_view == id + 1
            &&& doc.views@[id + 1] == crate::extension::attribute_view(config.attributes@[id as int])
        }),
{
    let link = spec_link_map(entries);
    let n = config.attributes@.len();
    let id = entries[j].1;
    let s = valid_semantic(entries[j].0);
    link_maps_listed_ids(entries);
    assert(last_for_id(entries, j)) by {
        assert forall|b: int| j < b < entries.len() implies #[trigger] entries[b].1 != entries[j].1 by {
            assert(entries[j].1 != entries[b].1);
        }
    }
    assert(link[id] == s);
    attribute_map_holds_last_accessor(link, n, s);
    assert(link[id] == s && id < n);
    let v = spec_attribute_map(link, n)[s];
    let w = (v - 1) as usize;
    assert(link[w] == s);
    assert(link.contains_key(w));
    let i = choose|i: int| 0 <= i < entries.len() && #[trigger] entries[i].1 == w;
    assert(last_for_id(entries, i)) by {
        assert forall|b: int| i < b < entries.len() implies #[trigger] entries[b].1 != entries[i].1 by {
            assert(entries[i].1 != entries[b].1);
        }
    }
    assert(valid_semantic(entries[i].0) == s);
    if i != j {
        if i < j {
            assert(valid_semantic(entries[i].0) != valid_semantic(entries[j].0));
        } else {
            assert(valid_semantic(entries[j].0) != valid_semantic(entries[i].0));
        }
    }
    assert(w == id);
    assert(doc.views@[id + 1] == crate::extension::attribute_view(config.attributes@[id as int]));
    assert(crate::extension::is_attribute_accessor(doc.accessors@[id + 1], id as int, config, source, link[id]));
}

/// Every reference inside a decoded document resolves: each view reads the
/// one buffer, each accessor reads an existing view, and the primitive's
/// accessors exist. Where every decoded attribute lies within the decoded
/// buffer, so does every view.
pub proof fn decoded_document_references_resolve(
    doc: DecodedDocument,
    link: Map<usize, SemanticView>,
    source: &SourcePrimitive,
    config: &DracoDecodeConfig,
)
    requires
        describes_decoded(&doc, link, source, config),
    ensures
        forall|k: int| 0 <= k < doc.views@.len() ==> #[trigger] doc.views@[k].buffer < doc.buffers@.len(),
        forall|k: int|
            0 <= k < doc.accessors@.len() ==> #[trigger] doc.accessors@[k].buffer_view < doc.views@.len(),
        doc.meshes@[0].primitives@[0].indices < doc.accessors@.len(),
        forall|s: SemanticView|
            #[trigger] entries_map(entry_values(doc.meshes@[0].primitives@[0].attributes@)).contains_key(s)
                ==> 1 <= entries_map(entry_values(doc.meshes@[0].primitives@[0].attributes@))[s]
                < doc.accessors@.len(),
        (forall|i: int|
            0 <= i < config.attributes@.len() ==> #[trigger] config.attributes@[i].offset
                + config.attributes@[i].length <= config.buffer_size) ==> forall|k: int|
            0 <= k < doc.views@.len() ==> #[trigger] doc.views@[k].byte_offset + doc.views@[k].byte_length
                <= doc.buffers@[doc.views@[k].buffer as int].byte_length,
{
    let n = config.attributes@.len();
    assert forall|k: int| 0 <= k < doc.views@.len() implies #[trigger] doc.views@[k].buffer < doc.buffers@.len() by {
        if k > 0 {
            assert(doc.views@[(k - 1) + 1] == crate::extension::attribute_view(config.attributes@[k - 1]));
        }
    }
    assert forall|k: int| 0 <= k < doc.accessors@.len() implies #[trigger] doc.accessors@[k].buffer_view
        < doc.views@.len() by {
        if k > 0 {
            assert(crate::extension::is_attribute_accessor(
                doc.accessors@[(k - 1) + 1],
                k - 1,
                config,
                source,
                link[(k - 1) as usize],
            ));
        }
    }
    assert forall|s: SemanticView|
        #[trigger] entries_map(entry_values(doc.meshes@[0].primitives@[0].attributes@)).contains_key(s)
            implies 1 <= entries_map(entry_values(doc.meshes@[0].primitives@[0].attributes@))[s]
            < doc.accessors@.len() by {
        attribute_map_holds_last_accessor(link, n, s);
    }
    if forall|i: int|
        0 <= i < config.attributes@.len() ==> #[trigger] config.attributes@[i].offset
            + config.attributes@[i].length <= config.buffer_size {
        assert forall|k: int| 0 <= k < doc.views@.len() implies #[trigger] doc.views@[k].byte_offset
            + doc.views@[k].byte_length <= doc.buffers@[doc.views@[k].buffer as int].byte_length by {
            if k > 0 {
                let a = config.attributes@[k - 1];
                assert(doc.views@[(k - 1) + 1] == crate::extension::attribute_view(a));
                assert(a.offset + a.length <= config.buffer_size);
            }
        }
    }
}

/// The primitive of a decoded document reads its indices from an accessor of
/// `index_count` scalar indices, stored in 16 bits while their count fits in
/// 16 bits and in 32 bits beyond that, in the view at the start of the buffer.
pub proof fn decoded_primitive_reads_all_indices(
    doc: DecodedDocument,
    link: Map<usize, SemanticView>,
    source: &SourcePrimitive,
    config: &DracoDecodeConfig,
)
    requires
        describes_decoded(&doc, link, source, config),
    ensures
        ({
            let acc = doc.accessors@[doc.meshes@[0].primitives@[0].indices as int];
            &&& acc == indices_accessor(config)
            &&& acc.count == config.index_count
            &&& (acc.component_type == DataType::U16 <==> config.index_count <= 65535)
            &&& (acc.component_type == DataType::U32 <==> config.index_count > 65535)
            &&& doc.views@[acc.buffer_view as int].byte_offset == 0
        }),
{
}

/// No Draco attribute id is listed twice.
pub open spec fn distinct_ids(entries: Seq<(Seq<char>, usize)>) -> bool {
    forall|a: int, b: int| 0 <= a < b < entries.len() ==> #[trigger] entries[a].1 != #[trigger] entries[b].1
}

proof fn lemma_distinct_last(entries: Seq<(Seq<char>, usize)>, i: int)
    requires
        distinct_ids(entries),
        0 <= i < entries.len(),
    ensures
        last_for_id(entries, i),
{
    assert forall|j: int| i < j < entries.len() implies #[trigger] entries[j].1 != entries[i].1 by {
        assert(entries[i].1 != entries[j].1);
    }
}

/// Where no Draco attribute id is listed twice, the link does not depend on
/// the order in which the extension's attribute object is walked: any two
/// walks of the same entries give the same link.
pub proof fn link_is_independent_of_walk_order(
    first: Seq<(Seq<char>, usize)>,
    second: Seq<(Seq<char>, usize)>,
)
    requires
        distinct_ids(first),
        distinct_ids(second),
        forall|e: (Seq<char>, usize)| first.contains(e) <==> second.contains(e),
    ensures
        spec_link_map(first) == spec_link_map(second),
{
    link_maps_listed_ids(first);
    link_maps_listed_ids(second);
    let m1 = spec_link_map(first);
    let m2 = spec_link_map(second);
    assert forall|k: usize| m1.contains_key(k) implies m2.contains_key(k) && m1[k] == m2[k] by {
        let i = choose|i: int| 0 <= i < first.len() && #[trigger] first[i].1 == k;
        assert(first.contains(first[i]));
        let j = choose|j: int| 0 <= j < second.len() && second[j] == first[i];
        assert(second[j].1 == k);
        lemma_distinct_last(first, i);
        lemma_distinct_last(second, j);
    }
    assert forall|k: usize| m2.contains_key(k) implies m1.contains_key(k) by {
        let j = choose|j: int| 0 <= j < second.len() && #[trigger] second[j].1 == k;
        assert(second.contains(second[j]));
        let i = choose|i: int| 0 <= i < first.len() && first[i] == second[j];
        assert(first[i].1 == k);
    }
    assert(m1 =~= m2);
}

/// Two compressed primitives that agree, for every semantic that a decoded
/// attribute carries, on the shape and bounds of the attribute with that
/// semantic give the same decoded document: their other attributes, and the
/// order in which they list them, do not matter.
pub proof fn decoded_document_depends_only_on_linked_attributes(
    first: DecodedDocument,
    second: DecodedDocument,
    link: Map<usize, SemanticView>,
    source1: &SourcePrimitive,
    source2: &SourcePrimitive,
    config: &DracoDecodeConfig,
)
    requires
        describes_decoded(&first, link, source1, config),
        describes_decoded(&second, link, source2, config),
        forall|i: usize|
            i < config.attributes@.len() ==> {
                let a = first_attribute(source1, #[trigger] link[i]);
                let b = first_attribute(source2, link[i]);
                &&& a.dimensions == b.dimensions
                &&& a.min == b.min
                &&& a.max == b.max
            },
    ensures
        first.buffers@ == second.buffers@,
        first.views@ == second.views@,
        first.accessors@ == second.accessors@,
        first.meshes@.len() == second.meshes@.len(),
        first.meshes@[0].primitives@.len() == second.meshes@[0].primitives@.len(),
        first.meshes@[0].primitives@[0].indices == second.meshes@[0].primitives@[0].indices,
        first.meshes@[0].primitives@[0].mode == second.meshes@[0].primitives@[0].mode,
        first.meshes@[0].primitives@[0].material == second.meshes@[0].primitives@[0].material,
        first.meshes@[0].primitives@[0].targets == second.meshes@[0].primitives@[0].targets,
        entries_map(entry_values(first.meshes@[0].primitives@[0].attributes@)) == entries_map(
            entry_values(second.meshes@[0].primitives@[0].attributes@),
        ),
{
    let n = config.attributes@.len();
    assert forall|k: int| 0 <= k < first.views@.len() implies first.views@[k] == second.views@[k] by {
        if k > 0 {
            assert(first.views@[(k - 1) + 1] == second.views@[(k - 1) + 1]);
        }
    }
    assert(first.views@ =~= second.views@);
    assert forall|k: int| 0 <= k < first.accessors@.len() implies first.accessors@[k]
        == second.accessors@[k] by {
        if k > 0 {
            let i = k - 1;
            let s = link[i as usize];
            assert(crate::extension::is_attribute_accessor(first.accessors@[i + 1], i, config, source1, s));
            assert(crate::extension::is_attribute_accessor(second.accessors@[i + 1], i, config, source2, s));
            let a = first_attribute(source1, s);
            let b = first_attribute(source2, s);
            assert(a.dimensions == b.dimensions && a.min == b.min && a.max == b.max);
        }
    }
    assert(first.accessors@ =~= second.accessors@);
}

/// Only the first set of joints and weights is ever left out of a mesh or
/// reported: every other attribute is converted, whichever nodes use the mesh.
pub proof fn only_skinning_attributes_are_held_back(s: SemanticView, on_skinned: bool, on_non_skinned: bool)
    ensures
        s != SemanticView::Joints(0) && s != SemanticView::Weights(0) ==> spec_attribute_action(
            s,
            on_skinned,
            on_non_skinned,
        ) == AttributeAction::Convert,
        spec_attribute_action(s, on_skinned, on_non_skinned) != AttributeAction::Convert ==> (s
            == SemanticView::Joints(0) || s == SemanticView::Weights(0)),
{
}

/// The first set of joints and weights is left out exactly when no skinned
/// node uses the mesh; it is converted with an error report when both skinned
/// and unskinned nodes use it, and converted silently when only skinned nodes do.
pub proof fn skinning_attributes_follow_the_nodes(s: SemanticView, on_skinned: bool, on_non_skinned: bool)
    requires
        s == SemanticView::Joints(0) || s == SemanticView::Weights(0),
    ensures
        (spec_attribute_action(s, on_skinned, on_non_skinned) == AttributeAction::Skip) == !on_skinned,
        (spec_attribute_action(s, on_skinned, on_non_skinned) == AttributeAction::ConvertOnMixedNodes)
            == (on_skinned && on_non_skinned),
        (spec_attribute_action(s, on_skinned, on_non_skinned) == AttributeAction::Convert) == (on_skinned
            && !on_non_skinned),
{
}

/// Meshes are rotated exactly when the load's coordinate conversion asks for
/// rotated meshes; rotating the scene entity has no bearing on it, and a load
/// without a conversion does not rotate.
pub proof fn meshes_rotate_as_the_settings_ask(settings: LoaderSettings)
    ensures
        settings.convert_coordinates matches Some(cc) ==> rotates_meshes(settings) == cc.rotate_meshes,
        settings.convert_coordinates is None ==> !rotates_meshes(settings),
{
}

/// The selected bytes are the whole view: exactly `length` bytes, the `k`-th
/// being the byte at `offset + k` of the view's buffer.
pub proof fn view_bytes_are_the_whole_view(view: SourceView, buffer_data: Seq<Vec<u8>>)
    requires
        view_in_bounds(view, buffer_data),
    ensures
        view_bytes(view, buffer_data).len() == view.length,
        forall|k: int|
            0 <= k < view.length ==> #[trigger] view_bytes(view, buffer_data)[k]
                == buffer_data[view.buffer as int]@[view.offset + k],
{
}

/// The glTF component type of each Draco attribute type: the same width and
/// signedness, except that signed 32-bit data, which glTF cannot declare, is
/// declared unsigned.
pub proof fn attribute_component_types(t: AttributeDataType)
    ensures
        t == AttributeDataType::Int8 ==> attribute_data_type(t) == DataType::I8,
        t == AttributeDataType::UInt8 ==> attribute_data_type(t) == DataType::U8,
        t == AttributeDataType::Int16 ==> attribute_data_type(t) == DataType::I16,
        t == AttributeDataType::UInt16 ==> attribute_data_type(t) == DataType::U16,
        t == AttributeDataType::Int32 ==> attribute_data_type(t) == DataType::U32,
        t == AttributeDataType::UInt32 ==> attribute_data_type(t) == DataType::U32,
        t == AttributeDataType::Float32 ==> attribute_data_type(t) == DataType::F32,
{
}

/// Indices are declared 16-bit exactly while their count fits in 16 bits.
pub proof fn index_component_type(index_count: u32)
    ensures
        index_count <= 65535 ==> index_data_type(index_count) == DataType::U16,
        index_count > 65535 ==> index_data_type(index_count) == DataType::U32,
{
}

/// The layout of a decoded document, field by field: one buffer of the
/// decoded size; the indices view at its start spanning it, and an accessor of
/// `index_count` scalars without bounds; then, for each decoded attribute, a
/// view of its byte range in buffer 0 and an accessor that reads that view
/// from its start, counts every vertex, is not normalised, has the component
/// type of the decoded data, and has the shape and bounds of the first
/// attribute of the compressed primitive with the attribute's semantic.
pub proof fn decoded_document_layout(
    doc: DecodedDocument,
    link: Map<usize, SemanticView>,
    source: &SourcePrimitive,
    config: &DracoDecodeConfig,
)
    requires
        describes_decoded(&doc, link, source, config),
    ensures
        doc.buffers@.len() == 1,
        doc.buffers@[0].byte_length == config.buffer_size,
        doc.views@.len() == config.attributes@.len() + 1,
        doc.accessors@.len() == config.attributes@.len() + 1,
        doc.views@[0].buffer == 0,
        doc.views@[0].byte_offset == 0,
        doc.views@[0].byte_length == config.buffer_size,
        forall|k: int|
            0 <= k < doc.views@.len() ==> (#[trigger] doc.views@[k]).byte_stride is None
                && doc.views@[k].target == crate::document::Target::ArrayBuffer,
        doc.meshes@.len() == 1,
        doc.meshes@[0].primitives@.len() == 1,
        doc.meshes@[0].primitives@[0].indices == 0,
        doc.meshes@[0].primitives@[0].mode == crate::document::Mode::Triangles,
        doc.meshes@[0].primitives@[0].material is None,
        doc.meshes@[0].primitives@[0].targets is None,
        doc.accessors@[0].buffer_view == 0,
        doc.accessors@[0].byte_offset is None,
        !doc.accessors@[0].normalized,
        doc.accessors@[0].count == config.index_count,
        doc.accessors@[0].dimensions == Dimensions::Scalar,
        doc.accessors@[0].min is None,
        doc.accessors@[0].max is None,
        forall|id: int|
            0 <= id < config.attributes@.len() ==> {
                let view = #[trigger] doc.views@[id + 1];
                &&& view.buffer == 0
                &&& view.byte_offset == config.attributes@[id].offset
                &&& view.byte_length == config.attributes@[id].length
            },
        forall|id: int|
            0 <= id < config.attributes@.len() ==> {
                let acc = #[trigger] doc.accessors@[id + 1];
                &&& acc.buffer_view == id + 1
                &&& acc.byte_offset is None
                &&& acc.count == config.vertex_count
                &&& !acc.normalized
                &&& acc.component_type == attribute_data_type(config.attributes@[id].data_type)
            },
        forall|id: int|
            0 <= id < config.attributes@.len() ==> exists|j: int|
                {
                    let acc = #[trigger] doc.accessors@[id + 1];
                    let a = #[trigger] source.attributes@[j];
                    &&& 0 <= j < source.attributes@.len()
                    &&& a.semantic@ == link[id as usize]
                    &&& forall|k: int| 0 <= k < j ==> source.attributes@[k].semantic@ != link[id as usize]
                    &&& acc.dimensions == a.dimensions
                    &&& acc.min == Some(a.min)
                    &&& acc.max == Some(a.max)
                },
{
    let n = config.attributes@.len();
    assert forall|k: int| 0 <= k < doc.views@.len() implies (#[trigger] doc.views@[k]).byte_stride is None
        && doc.views@[k].target == crate::document::Target::ArrayBuffer by {
        if k > 0 {
            assert(doc.views@[(k - 1) + 1] == crate::extension::attribute_view(config.attributes@[k - 1]));
        }
    }
    assert forall|id: int| 0 <= id < n implies {
        let view = #[trigger] doc.views@[id + 1];
        &&& view.buffer == 0
        &&& view.byte_offset == config.attributes@[id].offset
        &&& view.byte_length == config.attributes@[id].length
    } by {
        assert(doc.views@[id + 1] == crate::extension::attribute_view(config.attributes@[id]));
    }
    assert forall|id: int| 0 <= id < n implies {
        let acc = #[trigger] doc.accessors@[id + 1];
        &&& acc.buffer_view == id + 1
        &&& acc.byte_offset is None
        &&& acc.count == config.vertex_count
        &&& !acc.normalized
        &&& acc.component_type == attribute_data_type(config.attributes@[id].data_type)
    } by {
        assert(crate::extension::is_attribute_accessor(
            doc.accessors@[id + 1],
            id,
            config,
            source,
            link[id as usize],
        ));
    }
    assert forall|id: int| 0 <= id < n implies exists|j: int|
        {
            let acc = #[trigger] doc.accessors@[id + 1];
            let a = #[trigger] source.attributes@[j];
            &&& 0 <= j < source.attributes@.len()
            &&& a.semantic@ == link[id as usize]
            &&& forall|k: int| 0 <= k < j ==> source.attributes@[k].semantic@ != link[id as usize]
            &&& acc.dimensions == a.dimensions
            &&& acc.min == Some(a.min)
            &&& acc.max == Some(a.max)
        } by {
        let s = link[id as usize];
        assert(crate::extension::is_attribute_accessor(doc.accessors@[id + 1], id, config, source, s));
        let sems = crate::document::source_semantics(source);
        assert(sems.contains(s));
        let w = choose|w: int| 0 <= w < sems.len() && sems[w] == s;
        lemma_least_position(sems, s, w);
        let j = crate::document::first_position(sems, s);
        assert(crate::document::is_first_position(sems, s, j));
        assert(source.attributes@[j].semantic@ == s);
        assert forall|k: int| 0 <= k < j implies source.attributes@[k].semantic@ != s by {
            assert(sems[k] != s);
        }
    }
}

/// A value that occurs in a sequence has a first position.
proof fn lemma_least_position(seq: Seq<SemanticView>, s: SemanticView, w: int)
    requires
        0 <= w < seq.len(),
        seq[w] == s,
    ensures
        exists|j: int| crate::document::is_first_position(seq, s, j),
    decreases w,
{
    if forall|k: int| 0 <= k < w ==> seq[k] != s {
        assert(crate::document::is_first_position(seq, s, w));
    } else {
        let k = choose|k: int| 0 <= k < w && seq[k] == s;
        lemma_least_position(seq, s, k);
    }
}

} // verus!
