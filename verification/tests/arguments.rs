use stitch::args::{
    build_output_name, check_image, parse_coordinates, validate_args, validate_coordinates,
    FileProbe, Request, Validation,
};
use stitch::error::{ErrorKind, StitchError};
use stitch::layout::calc_image_size;

fn strings(values: &[&str]) -> Vec<String> {
    values.iter().map(|v| String::from(*v)).collect()
}

/// Looks at a file the way the command-line program does.
fn look_at(path: &str) -> FileProbe {
    if !std::path::Path::new(path).exists() {
        return FileProbe::Missing;
    }
    match image::open(path) {
        Ok(_) => FileProbe::Decodable,
        Err(error) => FileProbe::Undecodable(error.to_string()),
    }
}

fn expect_request(result: Result<Validation, StitchError>) -> Request {
    match result {
        Ok(Validation::Valid(request)) => request,
        other => panic!("expected a request, got {:?}", other),
    }
}

#[test]
fn x_coordinate_must_be_integer() {
    // stitch -x e -y 0 one.png
    let validation_result = validate_args(
        &strings(&["e"]),
        &strings(&["0"]),
        None,
        &strings(&["one.png"]),
        &vec![],
    );
    assert!(validation_result.is_err());
    let error = validation_result.err().unwrap();
    assert_eq!(ErrorKind::Parsing, error.kind);
    assert_eq!("parsing", error.kind.name());
    assert_eq!(
        "error: Invalid value: The argument 'e' isn't a valid value\n",
        error.message
    );
}

#[test]
fn y_coordinate_must_be_integer() {
    // stitch -x 0 -y u one.png
    let validation_result = validate_args(
        &strings(&["0"]),
        &strings(&["u"]),
        None,
        &strings(&["one.png"]),
        &vec![],
    );
    assert!(validation_result.is_err());
    let error = validation_result.err().unwrap();
    assert_eq!(ErrorKind::Parsing, error.kind);
    assert_eq!("parsing", error.kind.name());
    assert_eq!(
        "error: Invalid value: The argument 'u' isn't a valid value\n",
        error.message
    );
}

#[test]
fn x_coordinate_for_every_image() {
    // stitch -y 0 one.png -x 256 -y 256 two.png
    let validation_result = validate_args(
        &strings(&["256"]),
        &strings(&["0", "256"]),
        None,
        &strings(&["one.png", "two.png"]),
        &vec![],
    );
    assert!(validation_result.is_err());
    let error = validation_result.err().unwrap();
    assert_eq!(ErrorKind::CommandLine, error.kind);
    assert_eq!("command-line", error.kind.name());
    assert_eq!("-x specified 1 times, expected 2", error.message);
}

#[test]
fn y_coordinate_for_every_image() {
    // stitch -x 0 one.png -x 256 -y 256 two.png
    let validation_result = validate_args(
        &strings(&["0", "256"]),
        &strings(&["256"]),
        None,
        &strings(&["one.png", "two.png"]),
        &vec![],
    );
    assert!(validation_result.is_err());
    let error = validation_result.err().unwrap();
    assert_eq!(ErrorKind::CommandLine, error.kind);
    assert_eq!("command-line", error.kind.name());
    assert_eq!("-y specified 1 times, expected 2", error.message);
}

#[test]
fn validate_args_errors_if_image_does_not_exist() {
    // stitch -x 0 -y 0 one.png
    let xs = strings(&["0"]);
    let ys = strings(&["0"]);
    let paths = strings(&["one.png"]);
    let mut probes = Vec::new();
    let first = validate_args(&xs, &ys, None, &paths, &probes);
    assert!(matches!(first, Ok(Validation::Probe(0))));
    probes.push(look_at("one.png"));
    let validation_result = validate_args(&xs, &ys, None, &paths, &probes);
    assert!(validation_result.is_err());
    let error = validation_result.err().unwrap();
    assert_eq!(ErrorKind::CommandLine, error.kind);
    assert_eq!("command-line", error.kind.name());
    assert_eq!("file does not exist: 'one.png'", error.message);
}

#[test]
fn validate_args_errors_if_image_format_is_not_supported() {
    let description = String::from(
        r#"The Decoder does not support the image format `Image format image/"md" is not supported.`"#,
    );
    let validation_result = validate_args(
        &strings(&["0"]),
        &strings(&["0"]),
        None,
        &strings(&["README.md"]),
        &vec![FileProbe::Undecodable(description)],
    );
    assert!(validation_result.is_err());
    let error = validation_result.err().unwrap();
    assert_eq!(ErrorKind::ImageFormat, error.kind);
    assert_eq!("image-format", error.kind.name());
    assert_eq!(
        r#"The Decoder does not support the image format `Image format image/"md" is not supported.`"#,
        error.message
    );
}

#[test]
fn calc_image_size_example() {
    // stitch -x 0 -y 0 one.png -x 256 -y 0 two.png
    let coords =
        validate_coordinates(&strings(&["0", "256"]), &strings(&["0", "0"]), 2).unwrap();
    assert_eq!(vec![(0u64, 0u64), (256u64, 0u64)], coords);
    let dimensions = vec![(256u64, 256u64), (256u64, 256u64)];
    let (width, height) = calc_image_size(&dimensions, &coords);
    assert_eq!(512, width);
    assert_eq!(256, height);
}

#[test]
fn calc_image_size_of_nothing_is_empty() {
    assert_eq!((0, 0), calc_image_size(&vec![], &vec![]));
}

#[test]
fn calc_image_size_takes_the_farthest_edges() {
    let dimensions = vec![(10u64, 400u64), (300u64, 20u64), (5u64, 5u64)];
    let coords = vec![(100u64, 0u64), (7u64, 50u64), (0u64, 0u64)];
    assert_eq!((307, 400), calc_image_size(&dimensions, &coords));
    let far = vec![(u64::MAX - 1, 0u64)];
    assert_eq!((u64::MAX, 3), calc_image_size(&vec![(1u64, 3u64)], &far));
}

#[test]
fn missing_x_values_are_counted_as_zero() {
    let error = validate_coordinates(&vec![], &strings(&["0"]), 1).err().unwrap();
    assert_eq!(ErrorKind::CommandLine, error.kind);
    assert_eq!("-x specified 0 times, expected 1", error.message);
}

#[test]
fn too_many_values_are_rejected_with_both_counts() {
    let twelve: Vec<String> = (0..12).map(|i: u32| i.to_string()).collect();
    let error = validate_coordinates(&twelve, &twelve, 3).err().unwrap();
    assert_eq!(ErrorKind::CommandLine, error.kind);
    assert_eq!("-x specified 12 times, expected 3", error.message);
    let three = strings(&["1", "2", "3"]);
    let error = validate_coordinates(&three, &twelve, 3).err().unwrap();
    assert_eq!("-y specified 12 times, expected 3", error.message);
}

#[test]
fn checks_fail_in_their_order() {
    // The x count comes before a bad x value, that before the y count, and
    // every coordinate check before any file.
    let error = validate_coordinates(&strings(&["e"]), &strings(&["0"]), 2).err().unwrap();
    assert_eq!("-x specified 1 times, expected 2", error.message);
    let error = validate_coordinates(&strings(&["e"]), &strings(&["0", "1"]), 1).err().unwrap();
    assert_eq!(ErrorKind::Parsing, error.kind);
    let error = validate_coordinates(&strings(&["3"]), &strings(&["u", "1"]), 1).err().unwrap();
    assert_eq!("-y specified 2 times, expected 1", error.message);
    let error = validate_args(
        &strings(&["3"]),
        &strings(&["-1"]),
        None,
        &strings(&["one.png"]),
        &vec![FileProbe::Missing],
    )
    .err()
    .unwrap();
    assert_eq!(ErrorKind::Parsing, error.kind);
    assert_eq!(
        "error: Invalid value: The argument '-1' isn't a valid value\n",
        error.message
    );
}

#[test]
fn first_bad_value_is_reported() {
    let error = parse_coordinates(&strings(&["1", "b", "c"])).err().unwrap();
    assert_eq!(
        "error: Invalid value: The argument 'b' isn't a valid value\n",
        error.message
    );
    assert_eq!(
        vec![1u64, 22, 333],
        parse_coordinates(&strings(&["1", "22", "333"])).unwrap()
    );
    assert_eq!(Vec::<u64>::new(), parse_coordinates(&vec![]).unwrap());
}

#[test]
fn first_bad_file_stops_validation() {
    let xs = strings(&["0", "1", "2"]);
    let ys = strings(&["3", "4", "5"]);
    let paths = strings(&["a.png", "b.png", "c.png"]);
    let probes = vec![
        FileProbe::Decodable,
        FileProbe::Missing,
        FileProbe::Undecodable(String::from("not an image")),
    ];
    let error = validate_args(&xs, &ys, None, &paths, &probes).err().unwrap();
    assert_eq!(ErrorKind::CommandLine, error.kind);
    assert_eq!("file does not exist: 'b.png'", error.message);
    // The failure is known without looking at the third file.
    let error = validate_args(&xs, &ys, None, &paths, &probes[..2].to_vec()).err().unwrap();
    assert_eq!("file does not exist: 'b.png'", error.message);
    let probes = vec![
        FileProbe::Decodable,
        FileProbe::Undecodable(String::from("not an image")),
        FileProbe::Missing,
    ];
    let error = validate_args(&xs, &ys, None, &paths, &probes).err().unwrap();
    assert_eq!(ErrorKind::ImageFormat, error.kind);
    assert_eq!("not an image", error.message);
}

#[test]
fn files_are_asked_for_one_by_one() {
    let xs = strings(&["0", "256"]);
    let ys = strings(&["0", "0"]);
    let paths = strings(&["one.png", "two.png"]);
    let mut probes = Vec::new();
    assert!(matches!(
        validate_args(&xs, &ys, None, &paths, &probes),
        Ok(Validation::Probe(0))
    ));
    probes.push(FileProbe::Decodable);
    assert!(matches!(
        validate_args(&xs, &ys, None, &paths, &probes),
        Ok(Validation::Probe(1))
    ));
    probes.push(FileProbe::Decodable);
    let request = expect_request(validate_args(&xs, &ys, None, &paths, &probes));
    assert_eq!(paths, request.paths);
    assert_eq!(vec![(0u64, 0u64), (256u64, 0u64)], request.placements);
    assert_eq!("one.png-and-two.png", request.output);
}

#[test]
fn coordinates_are_zipped_by_position() {
    let xs = strings(&["1", "2", "3"]);
    let ys = strings(&["10", "20", "30"]);
    let paths = strings(&["a", "b", "c"]);
    let probes = vec![FileProbe::Decodable, FileProbe::Decodable, FileProbe::Decodable];
    let request = expect_request(validate_args(
        &xs,
        &ys,
        Some(String::from("out.png")),
        &paths,
        &probes,
    ));
    assert_eq!(vec![(1u64, 10u64), (2, 20), (3, 30)], request.placements);
    assert_eq!(paths, request.paths);
    assert_eq!("out.png", request.output);
}

#[test]
fn no_images_make_an_empty_request() {
    let request = expect_request(validate_args(&vec![], &vec![], None, &vec![], &vec![]));
    assert!(request.paths.is_empty());
    assert!(request.placements.is_empty());
    assert_eq!("", request.output);
}

#[test]
fn default_output_name_joins_the_paths() {
    assert_eq!(
        "one.png-and-two.png",
        build_output_name(&strings(&["one.png", "two.png"]))
    );
    assert_eq!("one.png", build_output_name(&strings(&["one.png"])));
    assert_eq!("", build_output_name(&vec![]));
    assert_eq!(
        "a-and-b-and-c",
        build_output_name(&strings(&["a", "b", "c"]))
    );
}

#[test]
fn each_probe_has_its_verdict() {
    assert!(check_image("one.png", &FileProbe::Decodable).is_ok());
    let error = check_image("dir/one.png", &FileProbe::Missing).err().unwrap();
    assert_eq!(ErrorKind::CommandLine, error.kind);
    assert_eq!("file does not exist: 'dir/one.png'", error.message);
    let error = check_image("one.png", &FileProbe::Undecodable(String::from("bad header")))
        .err()
        .unwrap();
    assert_eq!(ErrorKind::ImageFormat, error.kind);
    assert_eq!("bad header", error.message);
}

#[test]
fn error_kinds_have_their_names() {
    assert_eq!("command-line", ErrorKind::CommandLine.name());
    assert_eq!("parsing", ErrorKind::Parsing.name());
    assert_eq!("image-format", ErrorKind::ImageFormat.name());
    assert_eq!("io", ErrorKind::Io.name());
    let error = StitchError::io(String::from("disk full"));
    assert_eq!(ErrorKind::Io, error.kind);
    assert_eq!("disk full", error.message);
    let error = StitchError::image_format(String::from("bad"));
    assert_eq!(ErrorKind::ImageFormat, error.kind);
    let error = StitchError::new(ErrorKind::Parsing, String::from("p"));
    assert_eq!(ErrorKind::Parsing, error.kind);
    assert_eq!("p", error.message);
}
