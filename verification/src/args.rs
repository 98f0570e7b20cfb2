//! Validating the arguments of a run: the coordinates given with `-x` and
//! `-y`, one pair for each image, and the image files themselves.
//!
//! Coordinates are matched to images by position: the first `-x` and the
//! first `-y` belong to the first image path, and so on.

use crate::error::{ErrorKind, StitchError};
use crate::layout::Placement;
use crate::text::{decimal, decimal_string, parse_coordinate, parse_u64};
use vstd::prelude::*;
use vstd::string::*;

verus! {

/// The message for a flag that was not given once for each image.
pub open spec fn count_text(flag: Seq<char>, given: nat, expected: nat) -> Seq<char> {
    flag + " specified "@ + decimal(given) + " times, expected "@ + decimal(expected)
}

/// The message for a coordinate that is not a non-negative integer.
pub open spec fn invalid_value_text(value: Seq<char>) -> Seq<char> {
    "error: Invalid value: The argument '"@ + value + "' isn't a valid value\n"@
}

/// The message for an image path at which there is no file.
pub open spec fn missing_file_text(path: Seq<char>) -> Seq<char> {
    "file does not exist: '"@ + path + "'"@
}

/// The default output name: the image paths in order, joined by `-and-`.
pub open spec fn joined_names(paths: Seq<String>) -> Seq<char>
    decreases paths.len(),
{
    if paths.len() == 0 {
        Seq::empty()
    } else if paths.len() == 1 {
        paths[0]@
    } else {
        joined_names(paths.drop_last()) + "-and-"@ + paths.last()@
    }
}

/// Every value stands for a coordinate.
pub open spec fn all_parse(values: Seq<String>) -> bool {
    forall|i: int| 0 <= i < values.len() ==> (#[trigger] parse_coordinate(values[i]@)) is Some
}

/// Value `i` is the first that stands for no coordinate.
pub open spec fn first_invalid(values: Seq<String>, i: int) -> bool {
    &&& 0 <= i < values.len()
    &&& parse_coordinate(values[i]@) is None
    &&& forall|j: int| 0 <= j < i ==> (#[trigger] parse_coordinate(values[j]@)) is Some
}

/// There is one valid x and one valid y coordinate for each of `n` images.
pub open spec fn coordinates_valid(xs: Seq<String>, ys: Seq<String>, n: nat) -> bool {
    xs.len() == n && all_parse(xs) && ys.len() == n && all_parse(ys)
}

/// `error` is the failure that invalid coordinates are rejected with: the
/// first that applies of a wrong number of x values, an x value that is no
/// coordinate, a wrong number of y values, a y value that is no coordinate.
pub open spec fn coordinate_failure(
    xs: Seq<String>,
    ys: Seq<String>,
    n: nat,
    error: StitchError,
) -> bool {
    if xs.len() != n {
        error.carries(ErrorKind::CommandLine, count_text("-x"@, xs.len(), n))
    } else if !all_parse(xs) {
        exists|i: int| #[trigger]
            first_invalid(xs, i) && error.carries(ErrorKind::Parsing, invalid_value_text(xs[i]@))
    } else if ys.len() != n {
        error.carries(ErrorKind::CommandLine, count_text("-y"@, ys.len(), n))
    } else if !all_parse(ys) {
        exists|i: int| #[trigger]
            first_invalid(ys, i) && error.carries(ErrorKind::Parsing, invalid_value_text(ys[i]@))
    } else {
        false
    }
}

/// A flag that was not given once for each image is a command-line failure
/// that names the flag and both counts. The x values are checked first: the
/// y count is reached once the x values are in order.
pub proof fn lemma_wrong_count_is_rejected(
    xs: Seq<String>,
    ys: Seq<String>,
    n: nat,
    error: StitchError,
)
    requires
        coordinate_failure(xs, ys, n, error),
    ensures
        xs.len() != n ==> error.carries(ErrorKind::CommandLine, count_text("-x"@, xs.len(), n)),
        xs.len() == n && all_parse(xs) && ys.len() != n ==> error.carries(
            ErrorKind::CommandLine,
            count_text("-y"@, ys.len(), n),
        ),
        !coordinates_valid(xs, ys, n),
{
}

/// With the right number of values for both flags, a value that is no
/// coordinate is a parsing failure, whether it was given for x or for y.
pub proof fn lemma_bad_coordinate_is_a_parsing_failure(
    xs: Seq<String>,
    ys: Seq<String>,
    n: nat,
    error: StitchError,
)
    requires
        coordinate_failure(xs, ys, n, error),
        xs.len() == n,
        ys.len() == n,
    ensures
        error.kind == ErrorKind::Parsing,
        !all_parse(xs) || !all_parse(ys),
{
}

/// `coords` pairs the x and y values by position.
pub open spec fn coordinates_read(
    xs: Seq<String>,
    ys: Seq<String>,
    coords: Seq<(u64, u64)>,
) -> bool {
    &&& coords.len() == xs.len()
    &&& coords.len() == ys.len()
    &&& forall|i: int|
        0 <= i < coords.len() ==> parse_coordinate(xs[i]@) == Some((#[trigger] coords[i]).0)
            && parse_coordinate(ys[i]@) == Some(coords[i].1)
}

/// What looking at an image file found.
#[derive(Debug, Clone)]
pub enum FileProbe {
    /// There is no file at the path.
    Missing,
    /// The file is there but is no image; the decoder's description.
    Undecodable(String),
    /// The file is there and decodes as an image.
    Decodable,
}

/// `error` is the failure that the file at `path` is rejected with.
pub open spec fn file_failure(path: Seq<char>, probe: FileProbe, error: StitchError) -> bool {
    match probe {
        FileProbe::Missing => error.carries(ErrorKind::CommandLine, missing_file_text(path)),
        FileProbe::Undecodable(description) => error.carries(
            ErrorKind::ImageFormat,
            description@,
        ),
        FileProbe::Decodable => false,
    }
}

/// File `i` is the first of the `n` images that was looked at and rejected.
pub open spec fn first_bad_file(probes: Seq<FileProbe>, n: nat, i: int) -> bool {
    &&& 0 <= i < n
    &&& i < probes.len()
    &&& !(probes[i] is Decodable)
    &&& forall|j: int| 0 <= j < i ==> (#[trigger] probes[j]) is Decodable
}

/// A validated run: each image path with its offset, and the output path.
#[derive(Debug, Clone)]
pub struct Request {
    pub paths: Vec<String>,
    pub placements: Vec<Placement>,
    pub output: String,
}

impl Request {
    /// There is one placement for each image path.
    pub open spec fn well_formed(&self) -> bool {
        self.paths.len() == self.placements.len()
    }

    /// This request is the one that the given arguments ask for.
    pub open spec fn answers(
        &self,
        xs: Seq<String>,
        ys: Seq<String>,
        output: Option<String>,
        paths: Seq<String>,
    ) -> bool {
        &&& self.paths@ == paths
        &&& coordinates_read(xs, ys, self.placements@)
        &&& self.output@ == match output {
            Some(path) => path@,
            None => joined_names(paths),
        }
    }
}

/// Where validation stands after the files looked at so far.
#[derive(Debug, Clone)]
pub enum Validation {
    /// Nothing is wrong so far; the image with this index is to be looked
    /// at next.
    Probe(usize),
    /// Everything is in order.
    Valid(Request),
}

fn count_error(flag: &str, given: usize, expected: usize) -> (error: StitchError)
    ensures
        error.carries(ErrorKind::CommandLine, count_text(flag@, given as nat, expected as nat)),
{
    let mut message = String::from_str(flag);
    message.append(" specified ");
    message.append(decimal_string(given as u64).as_str());
    message.append(" times, expected ");
    message.append(decimal_string(expected as u64).as_str());
    StitchError::new(ErrorKind::CommandLine, message)
}

fn invalid_value_error(value: &str) -> (error: StitchError)
    ensures
        error.carries(ErrorKind::Parsing, invalid_value_text(value@)),
{
    let mut message = String::from_str("error: Invalid value: The argument '");
    message.append(value);
    message.append("' isn't a valid value\n");
    StitchError::new(ErrorKind::Parsing, message)
}

/// Reads every value as a coordinate, or fails on the first that is none.
pub fn parse_coordinates(values: &Vec<String>) -> (result: Result<Vec<u64>, StitchError>)
    ensures
        match result {
            Ok(numbers) => {
                &&& all_parse(values@)
                &&& numbers.len() == values.len()
                &&& forall|i: int|
                    0 <= i < numbers.len() ==> parse_coordinate(values[i]@) == Some(
                        #[trigger] numbers[i],
                    )
            },
            Err(error) => exists|i: int| #[trigger]
                first_invalid(values@, i) && error.carries(
                    ErrorKind::Parsing,
                    invalid_value_text(values[i]@),
                ),
        },
{
    let mut numbers: Vec<u64> = Vec::new();
    let mut i: usize = 0;
    while i < values.len()
        invariant
            i <= values.len(),
            numbers.len() == i,
            forall|j: int|
                0 <= j < i ==> parse_coordinate(values[j]@) == Some(#[trigger] numbers[j]),
            forall|j: int| 0 <= j < i ==> (#[trigger] parse_coordinate(values[j]@)) is Some,
        decreases values.len() - i,
    {
        match parse_u64(values[i].as_str()) {
            Some(number) => {
                numbers.push(number);
            },
            None => {
                assert(first_invalid(values@, i as int));
                return Err(invalid_value_error(values[i].as_str()));
            },
        }
        i += 1;
    }
    Ok(numbers)
}

/// Checks the coordinates against the number of images: one `-x` and one
/// `-y` for each image, every one of them a non-negative integer of 64 bits.
/// On success the coordinates are paired by position.
pub fn validate_coordinates(xs: &Vec<String>, ys: &Vec<String>, image_count: usize) -> (result:
    Result<Vec<Placement>, StitchError>)
    ensures
        match result {
            Ok(coords) => coordinates_valid(xs@, ys@, image_count as nat) && coordinates_read(
                xs@,
                ys@,
                coords@,
            ),
            Err(error) => coordinate_failure(xs@, ys@, image_count as nat, error),
        },
{
    if xs.len() != image_count {
        return Err(count_error("-x", xs.len(), image_count));
    }
    let x_numbers = match parse_coordinates(xs) {
        Ok(numbers) => numbers,
        Err(error) => {
            return Err(error);
        },
    };
    if ys.len() != image_count {
        return Err(count_error("-y", ys.len(), image_count));
    }
    let y_numbers = match parse_coordinates(ys) {
        Ok(numbers) => numbers,
        Err(error) => {
            return Err(error);
        },
    };
    let mut coords: Vec<(u64, u64)> = Vec::new();
    let mut i: usize = 0;
    while i < image_count
        invariant
            i <= image_count,
            x_numbers.len() == image_count,
            y_numbers.len() == image_count,
            coords.len() == i,
            forall|j: int| 0 <= j < i ==> (#[trigger] coords[j]) == (x_numbers[j], y_numbers[j]),
        decreases image_count - i,
    {
        coords.push((x_numbers[i], y_numbers[i]));
        i += 1;
    }
    Ok(coords)
}

/// Judges one image file by what looking at it found: a missing file and a
/// file that does not decode are each rejected with their own failure.
pub fn check_image(path: &str, probe: &FileProbe) -> (result: Result<(), StitchError>)
    ensures
        match result {
            Ok(_) => *probe is Decodable,
            Err(error) => file_failure(path@, *probe, error),
        },
{
    match probe {
        FileProbe::Missing => {
            let mut message = String::from_str("file does not exist: '");
            message.append(path);
            message.append("'");
            Err(StitchError::new(ErrorKind::CommandLine, message))
        },
        FileProbe::Undecodable(description) => Err(StitchError::image_format(description.clone())),
        FileProbe::Decodable => Ok(()),
    }
}

/// The default output name: the image paths in order, joined by `-and-`.
pub fn build_output_name(paths: &Vec<String>) -> (filename: String)
    ensures
        filename@ == joined_names(paths@),
{
    let mut filename = String::new();
    let mut i: usize = 0;
    assert(paths@.subrange(0, 0) =~= Seq::<String>::empty());
    while i < paths.len()
        invariant
            i <= paths.len(),
            filename@ == joined_names(paths@.subrange(0, i as int)),
        decreases paths.len() - i,
    {
        if i != 0 {
            filename.append("-and-");
        }
        filename.append(paths[i].as_str());
        proof {
            let longer = paths@.subrange(0, i + 1);
            assert(longer.drop_last() =~= paths@.subrange(0, i as int));
            assert(longer.last() == paths@[i as int]);
            assert(filename@ =~= joined_names(longer));
        }
        i += 1;
    }
    assert(paths@.subrange(0, paths.len() as int) =~= paths@);
    filename
}

/// Validates the arguments of a run, as far as the files looked at so far
/// allow. `probes[i]` is what looking at `paths[i]` found; files are looked
/// at in order, and only once the coordinates are in order.
///
/// The checks come in a fixed order and the first failure is returned: the
/// number of x values, the x values themselves, the number of y values, the
/// y values themselves, then each image file in turn. Where nothing failed
/// but an image has not been looked at yet, its index is returned; where
/// every image was looked at, the request.
pub fn validate_args(
    xs: &Vec<String>,
    ys: &Vec<String>,
    output: Option<String>,
    paths: &Vec<String>,
    probes: &Vec<FileProbe>,
) -> (result: Result<Validation, StitchError>)
    ensures
        match result {
            Err(error) => if coordinates_valid(xs@, ys@, paths.len() as nat) {
                exists|i: int| #[trigger]
                    first_bad_file(probes@, paths.len() as nat, i) && file_failure(
                        paths[i]@,
                        probes[i],
                        error,
                    )
            } else {
                coordinate_failure(xs@, ys@, paths.len() as nat, error)
            },
            Ok(Validation::Probe(next)) => {
                &&& coordinates_valid(xs@, ys@, paths.len() as nat)
                &&& next == probes.len()
                &&& next < paths.len()
                &&& forall|j: int| 0 <= j < next ==> (#[trigger] probes[j]) is Decodable
            },
            Ok(Validation::Valid(request)) => {
                &&& coordinates_valid(xs@, ys@, paths.len() as nat)
                &&& probes.len() >= paths.len()
                &&& forall|j: int| 0 <= j < paths.len() ==> (#[trigger] probes[j]) is Decodable
                &&& request.well_formed()
                &&& request.answers(xs@, ys@, output, paths@)
            },
        },
{
    let placements = match validate_coordinates(xs, ys, paths.len()) {
        Ok(coords) => coords,
        Err(error) => {
            return Err(error);
        },
    };
    let mut owned: Vec<String> = Vec::new();
    let mut i: usize = 0;
    while i < paths.len()
        invariant
            i <= paths.len(),
            i <= probes.len(),
            owned.len() == i,
            coordinates_valid(xs@, ys@, paths.len() as nat),
            coordinates_read(xs@, ys@, placements@),
            forall|j: int| 0 <= j < i ==> (#[trigger] owned[j]) == paths[j],
            forall|j: int| 0 <= j < i ==> (#[trigger] probes[j]) is Decodable,
        decreases paths.len() - i,
    {
        if i >= probes.len() {
            return Ok(Validation::Probe(i));
        }
        match check_image(paths[i].as_str(), &probes[i]) {
            Ok(_) => {},
            Err(error) => {
                assert(first_bad_file(probes@, paths.len() as nat, i as int));
                return Err(error);
            },
        }
        owned.push(paths[i].clone());
        i += 1;
    }
    assert(owned@ =~= paths@);
    let output_path = match output {
        Some(path) => path,
        None => build_output_name(paths),
    };
    Ok(Validation::Valid(Request { paths: owned, placements, output: output_path }))
}

} // verus!
