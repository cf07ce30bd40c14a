use conv_dim::{dim_after_layers, layer_from_fields, layers_from_fields, load_layers, ConvError, Layer, LayerFields};

fn complete(filter_size: i64, stride: i64, padding: i64, transposed: bool) -> LayerFields {
    LayerFields {
        filter_size: Some(filter_size),
        stride: Some(stride),
        padding: Some(padding),
        transposed: Some(transposed),
    }
}

const AUTO_ENCODER: &str = "
[[layers]]
filter_size = 3
stride = 1
padding = 1
transposed = false

[[layers]]
filter_size = 2
stride = 2
padding = 0
transposed = false

[[layers]]
filter_size = 3
stride = 1
padding = 1
transposed = false

[[layers]]
filter_size = 2
stride = 2
padding = 0
transposed = false

[[layers]]
filter_size = 2
stride = 2
padding = 0
transposed = true

[[layers]]
filter_size = 2
stride = 2
padding = 0
transposed = true
";

#[test]
fn complete_record_gives_layer() {
    assert_eq!(
        layer_from_fields(&complete(3, 2, 1, true)),
        Ok(Layer { filter_size: 3, stride: 2, padding: 1, transposed: true })
    );
}

#[test]
fn record_missing_stride_is_malformed() {
    let mut fields = complete(3, 2, 1, false);
    fields.stride = None;
    assert_eq!(layer_from_fields(&fields), Err(ConvError::MalformedChainDescription));
}

#[test]
fn record_out_of_range_is_malformed() {
    assert_eq!(layer_from_fields(&complete(-1, 2, 1, false)), Err(ConvError::MalformedChainDescription));
    assert_eq!(
        layer_from_fields(&complete(3, 4294967296, 1, false)),
        Err(ConvError::MalformedChainDescription)
    );
    assert_eq!(
        layer_from_fields(&complete(3, 4294967295, 1, false)),
        Ok(Layer { filter_size: 3, stride: u32::MAX, padding: 1, transposed: false })
    );
}

#[test]
fn one_bad_record_rejects_whole_chain() {
    let mut bad = complete(2, 2, 0, false);
    bad.transposed = None;
    let records = vec![complete(3, 1, 1, false), bad, complete(2, 2, 0, true)];
    assert_eq!(layers_from_fields(&records), Err(ConvError::MalformedChainDescription));
    let records = vec![complete(3, 1, 1, false), complete(2, 2, 0, true)];
    assert_eq!(
        layers_from_fields(&records),
        Ok(vec![
            Layer { filter_size: 3, stride: 1, padding: 1, transposed: false },
            Layer { filter_size: 2, stride: 2, padding: 0, transposed: true },
        ])
    );
    assert_eq!(layers_from_fields(&vec![]), Ok(vec![]));
}

#[test]
fn load_auto_encoder_description() {
    let layers = load_layers(AUTO_ENCODER).unwrap();
    assert_eq!(layers.len(), 6);
    assert_eq!(layers[0], Layer { filter_size: 3, stride: 1, padding: 1, transposed: false });
    assert_eq!(layers[5], Layer { filter_size: 2, stride: 2, padding: 0, transposed: true });
    assert_eq!(dim_after_layers(&layers, 64), Ok(64));
}

#[test]
fn load_description_missing_stride_is_malformed() {
    let text = "[[layers]]\nfilter_size = 3\npadding = 1\ntransposed = false\n";
    assert_eq!(load_layers(text), Err(ConvError::MalformedChainDescription));
}

#[test]
fn load_description_mistyped_field_is_malformed() {
    let text = "[[layers]]\nfilter_size = 3\nstride = \"2\"\npadding = 1\ntransposed = false\n";
    assert_eq!(load_layers(text), Err(ConvError::MalformedChainDescription));
    let text = "[[layers]]\nfilter_size = 3\nstride = 2\npadding = 1\ntransposed = 0\n";
    assert_eq!(load_layers(text), Err(ConvError::MalformedChainDescription));
}

#[test]
fn load_invalid_text_is_malformed() {
    assert_eq!(load_layers("[[layers]\nfilter_size ="), Err(ConvError::MalformedChainDescription));
    assert_eq!(load_layers("name = 1\n"), Err(ConvError::MalformedChainDescription));
    assert_eq!(load_layers("layers = 3\n"), Err(ConvError::MalformedChainDescription));
}

#[test]
fn load_empty_layer_list() {
    assert_eq!(load_layers("layers = []\n"), Ok(vec![]));
}

#[test]
fn load_inline_record_missing_stride_is_malformed() {
    let text = "layers = [ { filter_size = 3, padding = 1, transposed = false } ]\n";
    assert_eq!(load_layers(text), Err(ConvError::MalformedChainDescription));
}

#[test]
fn load_keeps_file_order_and_values() {
    let text = "layers = [ { filter_size = 5, stride = 2, padding = 1, transposed = false }, \
                { filter_size = 4, stride = 3, padding = 0, transposed = true } ]\n";
    assert_eq!(
        load_layers(text),
        Ok(vec![
            Layer { filter_size: 5, stride: 2, padding: 1, transposed: false },
            Layer { filter_size: 4, stride: 3, padding: 0, transposed: true },
        ])
    );
}
