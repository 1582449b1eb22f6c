use polypeek_core::text::{RawData, TextData};
use polypeek_core::transcoder::{
    downcast_any_data, transcode_any, Data, DataFormat, DataFormatMeta,
    TranscoderError, TranscoderResult,
};

#[derive(Debug, PartialEq)]
struct Celsius(i32);

#[derive(Debug, PartialEq)]
struct Kelvin(i32);

#[derive(Debug, PartialEq)]
struct Unnamed;

impl Data for Celsius {
    fn data_format_meta() -> &'static DataFormatMeta {
        &DataFormatMeta { name: "celsius", description: "degrees Celsius" }
    }
}

impl Data for Kelvin {
    fn data_format_meta() -> &'static DataFormatMeta {
        &DataFormatMeta { name: "kelvin", description: "kelvins" }
    }
}

impl Data for Unnamed {}

#[test]
fn formats_of_one_type_are_equal() {
    assert!(Celsius::data_format() == Celsius::data_format());
    assert!(Celsius::data_format().same_as(&Celsius::data_format()));
    assert!(Celsius::data_format() != Kelvin::data_format());
    assert!(!Celsius::data_format().same_as(&Kelvin::data_format()));
}

#[test]
fn format_carries_its_labels() {
    let f: DataFormat = Kelvin::data_format();
    assert_eq!(f.name(), "kelvin");
    assert_eq!(f.meta().description, "kelvins");
    assert_eq!(Unnamed::data_format().name(), "");
    assert_eq!(Unnamed::data_format().meta().description, "");
}

#[test]
fn empty_meta_has_empty_labels() {
    let m = DataFormatMeta::empty();
    assert_eq!(m.name, "");
    assert_eq!(m.description, "");
    assert!(*m == DataFormatMeta { name: "", description: "" });
    assert!(*m != DataFormatMeta { name: "x", description: "" });
}

#[test]
fn into_any_tags_with_the_format() {
    let any = Celsius(3).into_any();
    assert!(any.format() == Celsius::data_format());
}

#[test]
fn downcast_gives_back_the_value() {
    let any = Celsius(21).into_any();
    let value: TranscoderResult<Celsius> = downcast_any_data(any);
    assert_eq!(value.unwrap(), Celsius(21));
}

#[test]
fn downcast_to_another_type_is_a_mismatch() {
    let any = Celsius(21).into_any();
    match downcast_any_data::<Kelvin>(any) {
        Err(TranscoderError::DataFormatMismatch { expected, got }) => {
            assert_eq!(expected, "kelvin");
            assert_eq!(got, "celsius");
        }
        other => panic!("unexpected {:?}", other.map(|_| ())),
    }
}

#[test]
fn mismatch_message_names_both_formats() {
    let e = TranscoderError::DataFormatMismatch { expected: "kelvin", got: "celsius" };
    assert_eq!(e.message(), "codec type mismatch: expected kelvin, got celsius");
}

#[test]
fn other_message_is_its_text() {
    let e = TranscoderError::Other("boom".to_string());
    assert_eq!(e.message(), "boom");
}

#[test]
fn transcode_any_runs_the_codec() {
    let any = Celsius(10).into_any();
    let out = transcode_any(any, |c: Celsius| -> TranscoderResult<Kelvin> { Ok(Kelvin(c.0 + 273)) })
        .unwrap();
    assert!(out.format() == Kelvin::data_format());
    assert_eq!(downcast_any_data::<Kelvin>(out).unwrap(), Kelvin(283));
}

#[test]
fn transcode_any_passes_codec_errors_on() {
    let any = Celsius(10).into_any();
    let out = transcode_any(any, |_: Celsius| -> TranscoderResult<Kelvin> {
        Err(TranscoderError::Other("cold".to_string()))
    });
    match out {
        Err(TranscoderError::Other(s)) => assert_eq!(s, "cold"),
        _ => panic!("expected the codec's error"),
    }
}

#[test]
fn transcode_any_rejects_wrong_input() {
    let any = Kelvin(10).into_any();
    let out = transcode_any(any, |c: Celsius| -> TranscoderResult<Kelvin> { Ok(Kelvin(c.0)) });
    match out {
        Err(TranscoderError::DataFormatMismatch { expected, got }) => {
            assert_eq!(expected, "celsius");
            assert_eq!(got, "kelvin");
        }
        _ => panic!("expected a mismatch"),
    }
}

#[test]
fn raw_read_as_text_is_a_mismatch() {
    let any = RawData(vec![104]).into_any();
    match downcast_any_data::<TextData>(any) {
        Err(e @ TranscoderError::DataFormatMismatch { .. }) => {
            assert_eq!(e.message(), "codec type mismatch: expected text, got raw")
        }
        _ => panic!("expected a mismatch"),
    }
}
