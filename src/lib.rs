//! Output sizes of convolutional and transposed convolutional layers.
//!
//! Every dimension is a single, symmetric spatial extent. Dimensions and layer
//! parameters are `u32`; the intermediate arithmetic is carried out in `u64`,
//! and a result above `u32::MAX` is reported as `ConvError::DimensionOverflow`.

mod dims;
mod chain;

pub use dims::{
    ConvError, Layer, MAX_DIM, to_dim,
    conv_step, conv_spec, conv_output_dim,
    transposed_step, transposed_spec, transposed_conv_output_dim,
    layer_spec, chain_spec, dim_after_layers,
    lemma_conv_zero_repeat_is_identity, lemma_filter_too_large_is_rejected,
    lemma_conv_repeats_compose, lemma_transposed_undoes_conv,
};
pub use chain::{
    LayerFields, chain_records_of, dim_field_ok, fields_ok, all_fields_ok, fields_layer,
    layer_from_fields, layers_from_fields, load_layers,
};
