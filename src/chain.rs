use vstd::prelude::*;
use crate::dims::{ConvError, Layer, MAX_DIM};

verus! {

/// The four fields of one layer record as they were found in a chain
/// description; a field that is absent or of the wrong type is `None`.
#[derive(Clone, Copy, Debug, PartialEq, Eq, Structural)]
pub struct LayerFields {
    pub filter_size: Option<i64>,
    pub stride: Option<i64>,
    pub padding: Option<i64>,
    pub transposed: Option<bool>,
}

/// The records of a chain description: `None` where the text is not TOML or
/// holds no array under `layers`, else one record per element of that array,
/// in order, each field read as the integer or boolean found under its key.
pub uninterp spec fn chain_records_of(text: Seq<char>) -> Option<Seq<LayerFields>>;

/// Relies on `toml::from_str` for the document and on `toml::Value::get`,
/// `as_array`, `as_integer` and `as_bool` to read the `layers` array and the
/// fields of each of its elements; the result depends on the text alone.
#[verifier::external_body]
fn chain_records(text: &str) -> (r: Option<Vec<LayerFields>>)
    ensures
        r is Some <==> chain_records_of(text@) is Some,
        r matches Some(v) ==> chain_records_of(text@) == Some(v@),
{
    let doc = toml::from_str::<toml::Value>(text).ok()?;
    let integer = |v: &toml::Value, k: &str| v.get(k).and_then(|x| x.as_integer());
    Some(doc.get("layers")?.as_array()?.iter().map(|v| LayerFields {
        filter_size: integer(v, "filter_size"),
        stride: integer(v, "stride"),
        padding: integer(v, "padding"),
        transposed: v.get("transposed").and_then(|x| x.as_bool()),
    }).collect())
}

/// A field that holds a dimension or a layer parameter.
pub open spec fn dim_field_ok(v: Option<i64>) -> bool {
    match v {
        Some(x) => 0 <= x <= MAX_DIM,
        None => false,
    }
}

/// The record is complete and each number fits a layer parameter.
pub open spec fn fields_ok(fields: LayerFields) -> bool {
    dim_field_ok(fields.filter_size) && dim_field_ok(fields.stride) && dim_field_ok(fields.padding)
        && fields.transposed is Some
}

/// Every record is complete and in range.
pub open spec fn all_fields_ok(records: Seq<LayerFields>) -> bool {
    forall|i: int| 0 <= i < records.len() ==> fields_ok(#[trigger] records[i])
}

/// The layer that a complete record describes.
pub open spec fn fields_layer(fields: LayerFields) -> Layer {
    Layer {
        filter_size: fields.filter_size.unwrap() as u32,
        stride: fields.stride.unwrap() as u32,
        padding: fields.padding.unwrap() as u32,
        transposed: fields.transposed.unwrap(),
    }
}

fn dim_field(v: Option<i64>) -> (r: Option<u32>)
    ensures
        dim_field_ok(v) <==> r is Some,
        r matches Some(x) ==> x == v.unwrap(),
{
    match v {
        Some(x) => {
            if 0 <= x && x <= MAX_DIM as i64 {
                Some(x as u32)
            } else {
                None
            }
        },
        None => None,
    }
}

/// Turns one record into a layer; every field is required.
pub fn layer_from_fields(fields: &LayerFields) -> (r: Result<Layer, ConvError>)
    ensures
        fields_ok(*fields) ==> r == Ok::<Layer, ConvError>(fields_layer(*fields)),
        !fields_ok(*fields) ==> r == Err::<Layer, ConvError>(ConvError::MalformedChainDescription),
{
    match (dim_field(fields.filter_size), dim_field(fields.stride), dim_field(fields.padding), fields.transposed) {
        (Some(filter_size), Some(stride), Some(padding), Some(transposed)) => {
            Ok(Layer { filter_size, stride, padding, transposed })
        },
        _ => Err(ConvError::MalformedChainDescription),
    }
}

/// Turns the records into layers, in order. A single incomplete record rejects
/// the whole chain: no partial chain is ever returned.
pub fn layers_from_fields(records: &Vec<LayerFields>) -> (r: Result<Vec<Layer>, ConvError>)
    ensures
        (r is Ok) <==> all_fields_ok(records@),
        r matches Ok(v) ==> v@ == records@.map_values(|f: LayerFields| fields_layer(f)),
        r matches Err(e) ==> e == ConvError::MalformedChainDescription,
{
    let mut out: Vec<Layer> = Vec::new();
    let mut i: usize = 0;
    while i < records.len()
        invariant
            i <= records@.len(),
            forall|k: int| 0 <= k < i ==> fields_ok(#[trigger] records@[k]),
            out@ == records@.subrange(0, i as int).map_values(|f: LayerFields| fields_layer(f)),
        decreases records@.len() - i,
    {
        match layer_from_fields(&records[i]) {
            Ok(layer) => {
                out.push(layer);
            },
            Err(e) => {
                return Err(e);
            },
        }
        assert(records@.subrange(0, i + 1).map_values(|f: LayerFields| fields_layer(f))
            =~= records@.subrange(0, i as int).map_values(|f: LayerFields| fields_layer(f)).push(fields_layer(records@[i as int])));
        i = i + 1;
    }
    assert(records@.subrange(0, i as int) =~= records@);
    Ok(out)
}

/// Reads a layer chain from its TOML description: a table whose `layers`
/// entry is an array of tables, each with the integers `filter_size`,
/// `stride` and `padding` and the boolean `transposed`.
///
/// Text that is not TOML, a missing `layers` array and an incomplete or
/// mistyped record all give `MalformedChainDescription`.
pub fn load_layers(text: &str) -> (r: Result<Vec<Layer>, ConvError>)
    ensures
        chain_records_of(text@) is None
            ==> r == Err::<Vec<Layer>, ConvError>(ConvError::MalformedChainDescription),
        chain_records_of(text@) matches Some(recs) ==> ((r is Ok) <==> all_fields_ok(recs)),
        chain_records_of(text@) matches Some(recs) ==> (r matches Ok(v) ==> v@ == recs.map_values(
            |f: LayerFields| fields_layer(f),
        )),
        r matches Err(e) ==> e == ConvError::MalformedChainDescription,
{
    match chain_records(text) {
        Some(records) => {
            let r = layers_from_fields(&records);
            assert(chain_records_of(text@) == Some(records@));
            r
        },
        None => Err(ConvError::MalformedChainDescription),
    }
}

} // verus!
