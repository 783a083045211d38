//! Image metadata, and the rational-polynomial coefficients among the
//! "KEY=VALUE" items of a metadata domain.
//!
//! Reading the domain from an image file is the caller's, and so is the
//! reading of a number from its text. What is decided here is how an item
//! splits into key and value, which item a key finds, under which keys the
//! coefficients stand, in which order they are read, and with which message
//! the extraction fails.

use vstd::prelude::*;
use vstd::string::*;
use crate::binary64::Binary64;
use crate::decimal::{decimal, decimal_digits};
use crate::error::RspError;
use crate::sensor::rpc::{RpcCoefficients, RPC_TERMS};

verus! {

/// All the metadata of an image.
#[derive(Clone, Debug)]
pub struct ImageMetadata {
    /// The coefficients of the rational-polynomial model, if the image has them.
    pub rpc: Option<RpcCoefficients>,
    /// The position of the camera.
    pub gps_position: Option<(Binary64, Binary64, Binary64)>,
    /// The orientation of the camera, a unit quaternion `(i, j, k, w)`.
    pub imu_orientation: Option<(Binary64, Binary64, Binary64, Binary64)>,
    /// The time of the exposure.
    pub timestamp: Option<Binary64>,
    /// The name of the camera.
    pub camera_id: Option<String>,
}

/// The items of a metadata domain by their keys. Of two items with the same
/// key the later one counts.
pub struct Metadata {
    pairs: Vec<(String, String)>,
}

/// The character is white space as Unicode defines it.
pub open spec fn whitespace(c: char) -> bool {
    let u = c as u32;
    (0x09 <= u <= 0x0d) || u == 0x20 || u == 0x85 || u == 0xa0 || u == 0x1680 || (0x2000 <= u
        <= 0x200a) || u == 0x2028 || u == 0x2029 || u == 0x202f || u == 0x205f || u == 0x3000
}

/// `inner` is `text` without the white space at its start and at its end.
pub open spec fn trims_to(text: Seq<char>, inner: Seq<char>) -> bool {
    exists|from: int, to: int|
        {
            &&& 0 <= from <= to <= text.len()
            &&& #[trigger] text.subrange(from, to) == inner
            &&& forall|i: int| 0 <= i < from ==> whitespace(#[trigger] text[i])
            &&& forall|i: int| to <= i < text.len() ==> whitespace(#[trigger] text[i])
            &&& from < to ==> !whitespace(text[from]) && !whitespace(text[to - 1])
        }
}

/// The item splits at `at`: its first `=` stands there.
pub open spec fn splits_at(item: Seq<char>, at: int) -> bool {
    &&& 0 <= at < item.len()
    &&& item[at] == '='
    &&& forall|i: int| 0 <= i < at ==> #[trigger] item[i] != '='
}

/// The map that a list of items makes: each item puts its value under its
/// key, the later ones over the earlier.
pub open spec fn table(pairs: Seq<(String, String)>) -> Map<Seq<char>, Seq<char>>
    decreases pairs.len(),
{
    if pairs.len() == 0 {
        Map::empty()
    } else {
        table(pairs.drop_last()).insert(pairs.last().0@, pairs.last().1@)
    }
}

/// Whether the character is white space as Unicode defines it.
pub fn is_whitespace(c: char) -> (r: bool)
    ensures
        r == whitespace(c),
{
    let u: u32 = c as u32;
    (0x09 <= u && u <= 0x0d) || u == 0x20 || u == 0x85 || u == 0xa0 || u == 0x1680 || (0x2000 <= u
        && u <= 0x200a) || u == 0x2028 || u == 0x2029 || u == 0x202f || u == 0x205f || u == 0x3000
}

/// The text without the white space at its start and at its end.
pub fn trim(text: &str) -> (inner: String)
    ensures
        trims_to(text@, inner@),
{
    let n: usize = text.unicode_len();
    let mut from: usize = 0;
    while from < n && is_whitespace(text.get_char(from))
        invariant
            from <= n,
            n == text@.len(),
            forall|i: int| 0 <= i < from ==> whitespace(#[trigger] text@[i]),
        decreases n - from,
    {
        from = from + 1;
    }
    let mut to: usize = n;
    while to > from && is_whitespace(text.get_char(to - 1))
        invariant
            from <= to <= n,
            n == text@.len(),
            forall|i: int| to <= i < n ==> whitespace(#[trigger] text@[i]),
        decreases to - from,
    {
        to = to - 1;
    }
    let inner: String = String::from_str(text.substring_char(from, to));
    assert(text@.subrange(from as int, to as int) == inner@);
    inner
}

/// Splits a "KEY=VALUE" item at its first `=` into key and value. An item
/// without `=` is none.
pub fn split_item(item: &str) -> (r: Option<(String, String)>)
    ensures
        r is None ==> forall|i: int| 0 <= i < item@.len() ==> #[trigger] item@[i] != '=',
        r matches Some((key, value)) ==> exists|at: int|
            #[trigger] splits_at(item@, at) && key@ == item@.subrange(0, at) && value@
                == item@.subrange(at + 1, item@.len() as int),
{
    let n: usize = item.unicode_len();
    let mut at: usize = 0;
    while at < n
        invariant
            at <= n,
            n == item@.len(),
            forall|i: int| 0 <= i < at ==> #[trigger] item@[i] != '=',
        decreases n - at,
    {
        if item.get_char(at) == '=' {
            let key: String = String::from_str(item.substring_char(0, at));
            let value: String = String::from_str(item.substring_char(at + 1, n));
            assert(splits_at(item@, at as int));
            return Some((key, value));
        }
        at = at + 1;
    }
    None
}

impl View for Metadata {
    type V = Map<Seq<char>, Seq<char>>;

    closed spec fn view(&self) -> Map<Seq<char>, Seq<char>> {
        table(self.pairs@)
    }
}

impl Metadata {
    /// No items.
    pub fn new() -> (metadata: Metadata)
        ensures
            metadata@ == Map::<Seq<char>, Seq<char>>::empty(),
    {
        Metadata { pairs: Vec::new() }
    }

    /// Puts a value under a key, in place of what stood there.
    pub fn insert(&mut self, key: String, value: String)
        ensures
            final(self)@ == old(self)@.insert(key@, value@),
    {
        let ghost before = self.pairs@;
        self.pairs.push((key, value));
        assert(self.pairs@.drop_last() =~= before);
    }

    /// Whether there is no item at all.
    pub fn is_empty(&self) -> (r: bool)
        ensures
            r == (self@ == Map::<Seq<char>, Seq<char>>::empty()),
    {
        proof {
            if self.pairs@.len() > 0 {
                assert(self@.contains_key(self.pairs@.last().0@));
            }
        }
        self.pairs.len() == 0
    }

    /// The value under a key.
    pub fn get(&self, key: &str) -> (r: Option<String>)
        ensures
            r is None <==> !self@.contains_key(key@),
            r matches Some(value) ==> value@ == self@[key@],
    {
        let wanted: String = String::from_str(key);
        let mut i: usize = self.pairs.len();
        assert(self.pairs@.take(i as int) =~= self.pairs@);
        while i > 0
            invariant
                i <= self.pairs@.len(),
                wanted@ == key@,
                table(self.pairs@).contains_key(key@) <==> table(
                    self.pairs@.take(i as int),
                ).contains_key(key@),
                table(self.pairs@).contains_key(key@) ==> table(self.pairs@)[key@] == table(
                    self.pairs@.take(i as int),
                )[key@],
            decreases i,
        {
            proof {
                let shorter = self.pairs@.take(i as int);
                assert(shorter.drop_last() =~= self.pairs@.take(i - 1));
                assert(shorter.last() == self.pairs@[i - 1]);
            }
            if self.pairs[i - 1].0 == wanted {
                return Some(self.pairs[i - 1].1.clone());
            }
            i = i - 1;
        }
        None
    }

    /// The items of a domain that split into key and value, by their keys.
    pub fn from_items(items: &Vec<String>) -> (metadata: Metadata)
        ensures
            metadata@ == domain_table(items@),
    {
        let mut metadata: Metadata = Metadata::new();
        let mut i: usize = 0;
        while i < items.len()
            invariant
                i <= items@.len(),
                metadata@ == domain_table(items@.take(i as int)),
            decreases items@.len() - i,
        {
            proof {
                let longer = items@.take(i + 1);
                assert(longer.drop_last() =~= items@.take(i as int));
                assert(longer.last() == items@[i as int]);
            }
            match split_item(items[i].as_str()) {
                Some((key, value)) => {
                    proof {
                        lemma_split_unique(items@[i as int]@, key@, value@);
                    }
                    metadata.insert(key, value);
                },
                None => {},
            }
            i = i + 1;
        }
        assert(items@.take(items@.len() as int) =~= items@);
        metadata
    }
}

/// The place of the first `=` of an item, if it has one.
pub open spec fn first_equals(item: Seq<char>) -> Option<int> {
    if exists|at: int| splits_at(item, at) {
        Some(choose|at: int| splits_at(item, at))
    } else {
        None
    }
}

/// The map that the items of a domain make: each item with a `=` puts what
/// follows its first `=` under what stands before it, the later ones over the
/// earlier; an item without `=` puts nothing.
pub open spec fn domain_table(items: Seq<String>) -> Map<Seq<char>, Seq<char>>
    decreases items.len(),
{
    if items.len() == 0 {
        Map::empty()
    } else {
        let item = items.last()@;
        match first_equals(item) {
            Some(at) => domain_table(items.drop_last()).insert(
                item.subrange(0, at),
                item.subrange(at + 1, item.len() as int),
            ),
            None => domain_table(items.drop_last()),
        }
    }
}

/// An item splits at one place only.
pub proof fn lemma_split_unique(item: Seq<char>, key: Seq<char>, value: Seq<char>)
    requires
        exists|at: int|
            #[trigger] splits_at(item, at) && key == item.subrange(0, at) && value
                == item.subrange(at + 1, item.len() as int),
    ensures
        first_equals(item) matches Some(at) && key == item.subrange(0, at) && value
            == item.subrange(at + 1, item.len() as int),
{
    let found = choose|at: int|
        #[trigger] splits_at(item, at) && key == item.subrange(0, at) && value == item.subrange(
            at + 1,
            item.len() as int,
        );
    let first = choose|at: int| splits_at(item, at);
    assert(splits_at(item, first));
    if first < found {
        assert(item[first] != '=');
    }
    if found < first {
        assert(item[found] != '=');
    }
}

/// What reading the number under a key may return, given the reading of a
/// number from its text: without an item under the key, the error that names
/// the key as missing; otherwise what `parse` makes of the trimmed value, or,
/// if it makes nothing of it, the error that begins with `failure` and names
/// the key.
pub open spec fn reads<P>(
    metadata: Map<Seq<char>, Seq<char>>,
    key: Seq<char>,
    parse: P,
    failure: Seq<char>,
    out: Result<Binary64, RspError>,
) -> bool where P: Fn(String) -> Option<Binary64> {
    if !metadata.contains_key(key) {
        out matches Err(RspError::Io(message)) && message@ == "Missing RPC parameter: "@ + key
    } else {
        exists|text: String, parsed: Option<Binary64>|
            {
                &&& trims_to(metadata[key], text@)
                &&& #[trigger] call_ensures(parse, (text,), parsed)
                &&& match parsed {
                    Some(number) => out == Ok::<Binary64, RspError>(number),
                    None => out matches Err(RspError::Io(message)) && message@ == failure + key,
                }
            }
    }
}

/// The key of a coefficient: the prefix, an underscore, and the number of
/// the coefficient, counted from 1, in decimal notation.
pub open spec fn coefficient_key(prefix: Seq<char>, number: nat) -> Seq<char> {
    prefix + "_"@ + decimal_digits(number)
}

/// What reading the twenty coefficients of a polynomial may return: the
/// coefficients, each read under its key, or the error of the first that
/// could not be read.
pub open spec fn reads_coefficients<P>(
    metadata: Map<Seq<char>, Seq<char>>,
    prefix: Seq<char>,
    parse: P,
    out: Result<Seq<Binary64>, RspError>,
) -> bool where P: Fn(String) -> Option<Binary64> {
    match out {
        Ok(numbers) => {
            &&& numbers.len() == RPC_TERMS
            &&& forall|i: int|
                0 <= i < RPC_TERMS ==> reads(
                    metadata,
                    coefficient_key(prefix, (i + 1) as nat),
                    parse,
                    "Failed to parse RPC coefficient: "@,
                    Ok::<Binary64, RspError>(#[trigger] numbers[i]),
                )
        },
        Err(error) => exists|numbers: Seq<Binary64>|
            {
                &&& numbers.len() < RPC_TERMS
                &&& forall|i: int|
                    0 <= i < numbers.len() ==> reads(
                        metadata,
                        coefficient_key(prefix, (i + 1) as nat),
                        parse,
                        "Failed to parse RPC coefficient: "@,
                        Ok::<Binary64, RspError>(#[trigger] numbers[i]),
                    )
                &&& #[trigger] reads(
                    metadata,
                    coefficient_key(prefix, (numbers.len() + 1) as nat),
                    parse,
                    "Failed to parse RPC coefficient: "@,
                    Err::<Binary64, RspError>(error),
                )
            },
    }
}

fn read_field<P>(metadata: &Metadata, key: String, parse: P, failure: &str) -> (r: Result<
    Binary64,
    RspError,
>) where P: Fn(String) -> Option<Binary64>
    requires
        forall|text: String| call_requires(parse, (text,)),
    ensures
        reads(metadata@, key@, parse, failure@, r),
{
    let value: String = match metadata.get(key.as_str()) {
        None => {
            let mut message: String = String::from_str("Missing RPC parameter: ");
            message.append(key.as_str());
            return Err(RspError::Io(message));
        },
        Some(value) => value,
    };
    let text: String = trim(value.as_str());
    match parse(text) {
        Some(number) => Ok(number),
        None => {
            let mut message: String = String::from_str(failure);
            message.append(key.as_str());
            Err(RspError::Io(message))
        },
    }
}

/// Reads the number under a key. Without an item under the key the error
/// says that the parameter is missing; if `parse` makes nothing of the
/// trimmed value, it says that the parameter failed to parse.
pub fn parse_single<P>(metadata: &Metadata, key: &str, parse: P) -> (r: Result<
    Binary64,
    RspError,
>) where P: Fn(String) -> Option<Binary64>
    requires
        forall|text: String| call_requires(parse, (text,)),
    ensures
        reads(metadata@, key@, parse, "Failed to parse RPC parameter: "@, r),
{
    read_field(metadata, String::from_str(key), parse, "Failed to parse RPC parameter: ")
}

/// Reads the twenty coefficients of a polynomial, which stand under the
/// prefix, an underscore and the numbers 1 to 20. The first that is missing
/// or fails to parse ends the reading with its error.
pub fn parse_coeff_array<P>(metadata: &Metadata, prefix: &str, parse: P) -> (r: Result<
    [Binary64; 20],
    RspError,
>) where P: Fn(String) -> Option<Binary64> + Copy
    requires
        forall|text: String| call_requires(parse, (text,)),
    ensures
        reads_coefficients(
            metadata@,
            prefix@,
            parse,
            match r {
                Ok(coeffs) => Ok(coeffs@),
                Err(error) => Err(error),
            },
        ),
{
    let mut coeffs: [Binary64; 20] = [Binary64 { bits: 0 };20];
    let mut i: usize = 0;
    while i < RPC_TERMS
        invariant
            i <= RPC_TERMS,
            forall|text: String| call_requires(parse, (text,)),
            forall|j: int|
                0 <= j < i ==> reads(
                    metadata@,
                    coefficient_key(prefix@, (j + 1) as nat),
                    parse,
                    "Failed to parse RPC coefficient: "@,
                    Ok::<Binary64, RspError>(#[trigger] coeffs@[j]),
                ),
        decreases RPC_TERMS - i,
    {
        let mut key: String = String::from_str(prefix);
        key.append("_");
        let number: String = decimal(i + 1);
        key.append(number.as_str());
        match read_field(metadata, key, parse, "Failed to parse RPC coefficient: ") {
            Err(error) => {
                proof {
                    let numbers = coeffs@.take(i as int);
                    assert forall|j: int| 0 <= j < numbers.len() implies reads(
                        metadata@,
                        coefficient_key(prefix@, (j + 1) as nat),
                        parse,
                        "Failed to parse RPC coefficient: "@,
                        Ok::<Binary64, RspError>(#[trigger] numbers[j]),
                    ) by {
                        assert(numbers[j] == coeffs@[j]);
                    }
                    assert(reads(
                        metadata@,
                        coefficient_key(prefix@, (numbers.len() + 1) as nat),
                        parse,
                        "Failed to parse RPC coefficient: "@,
                        Err::<Binary64, RspError>(error),
                    ));
                }
                return Err(error);
            },
            Ok(number) => {
                let ghost before = coeffs@;
                coeffs[i] = number;
                proof {
                    assert forall|j: int| 0 <= j < i + 1 implies reads(
                        metadata@,
                        coefficient_key(prefix@, (j + 1) as nat),
                        parse,
                        "Failed to parse RPC coefficient: "@,
                        Ok::<Binary64, RspError>(#[trigger] coeffs@[j]),
                    ) by {
                        if j < i {
                            assert(coeffs@[j] == before[j]);
                        }
                    }
                }
            },
        }
        i = i + 1;
    }
    Ok(coeffs)
}

/// The coefficients stand in fourteen groups, which are read in this
/// order: the four polynomials, then the offsets and scales.
pub const RPC_GROUPS: usize = 14;

/// The key of a group of its own, or the prefix of the keys of a polynomial.
pub open spec fn group_name(group: int) -> Seq<char> {
    if group == 0 {
        "LINE_NUM_COEFF"@
    } else if group == 1 {
        "LINE_DEN_COEFF"@
    } else if group == 2 {
        "SAMP_NUM_COEFF"@
    } else if group == 3 {
        "SAMP_DEN_COEFF"@
    } else if group == 4 {
        "LAT_OFF"@
    } else if group == 5 {
        "LAT_SCALE"@
    } else if group == 6 {
        "LONG_OFF"@
    } else if group == 7 {
        "LONG_SCALE"@
    } else if group == 8 {
        "HEIGHT_OFF"@
    } else if group == 9 {
        "HEIGHT_SCALE"@
    } else if group == 10 {
        "LINE_OFF"@
    } else if group == 11 {
        "LINE_SCALE"@
    } else if group == 12 {
        "SAMP_OFF"@
    } else {
        "SAMP_SCALE"@
    }
}

/// The numbers of a group among the coefficients.
pub open spec fn group_values(coeffs: RpcCoefficients, group: int) -> Seq<Binary64> {
    if group == 0 {
        coeffs.line_num_coeff@
    } else if group == 1 {
        coeffs.line_den_coeff@
    } else if group == 2 {
        coeffs.samp_num_coeff@
    } else if group == 3 {
        coeffs.samp_den_coeff@
    } else if group == 4 {
        seq![coeffs.lat_off]
    } else if group == 5 {
        seq![coeffs.lat_scale]
    } else if group == 6 {
        seq![coeffs.lon_off]
    } else if group == 7 {
        seq![coeffs.lon_scale]
    } else if group == 8 {
        seq![coeffs.height_off]
    } else if group == 9 {
        seq![coeffs.height_scale]
    } else if group == 10 {
        seq![coeffs.line_off]
    } else if group == 11 {
        seq![coeffs.line_scale]
    } else if group == 12 {
        seq![coeffs.samp_off]
    } else {
        seq![coeffs.samp_scale]
    }
}

/// What reading a group may return: for the first four the twenty
/// coefficients of a polynomial, for the others the one number under the key.
pub open spec fn reads_group<P>(
    metadata: Map<Seq<char>, Seq<char>>,
    parse: P,
    group: int,
    out: Result<Seq<Binary64>, RspError>,
) -> bool where P: Fn(String) -> Option<Binary64> {
    if group < 4 {
        reads_coefficients(metadata, group_name(group), parse, out)
    } else {
        match out {
            Ok(numbers) => numbers.len() == 1 && reads(
                metadata,
                group_name(group),
                parse,
                "Failed to parse RPC parameter: "@,
                Ok::<Binary64, RspError>(numbers[0]),
            ),
            Err(error) => reads(
                metadata,
                group_name(group),
                parse,
                "Failed to parse RPC parameter: "@,
                Err::<Binary64, RspError>(error),
            ),
        }
    }
}

/// The first `count` groups of the coefficients are what reading them may
/// return.
pub open spec fn reads_groups<P>(
    metadata: Map<Seq<char>, Seq<char>>,
    parse: P,
    count: int,
    coeffs: RpcCoefficients,
) -> bool where P: Fn(String) -> Option<Binary64> {
    forall|group: int|
        0 <= group < count ==> #[trigger] reads_group(
            metadata,
            parse,
            group,
            Ok::<Seq<Binary64>, RspError>(group_values(coeffs, group)),
        )
}

/// What extracting the coefficients from a metadata domain may return.
/// Without the domain, or with a domain none of whose items has a `=`, the
/// extraction fails. Otherwise the groups are read in their order: the
/// result is the coefficients, each group read from the items, or the error
/// of the first group that could not be read.
pub open spec fn extracts<P>(
    domain: Option<Seq<String>>,
    parse: P,
    out: Result<RpcCoefficients, RspError>,
) -> bool where P: Fn(String) -> Option<Binary64> {
    match domain {
        None => out matches Err(RspError::Io(message)) && message@ == "RPC metadata not found"@,
        Some(items) => if domain_table(items) == Map::<Seq<char>, Seq<char>>::empty() {
            out matches Err(RspError::Io(message)) && message@
                == "RPC metadata not found or empty"@
        } else {
            match out {
                Ok(coeffs) => reads_groups(domain_table(items), parse, RPC_GROUPS as int, coeffs),
                Err(error) => exists|failed: int, coeffs: RpcCoefficients|
                    {
                        &&& 0 <= failed < RPC_GROUPS
                        &&& #[trigger] reads_groups(domain_table(items), parse, failed, coeffs)
                        &&& reads_group(
                            domain_table(items),
                            parse,
                            failed,
                            Err::<Seq<Binary64>, RspError>(error),
                        )
                    },
            }
        },
    }
}

/// The views of the items of a domain.
pub open spec fn items_of(domain: Option<&Vec<String>>) -> Option<Seq<String>> {
    match domain {
        None => None,
        Some(items) => Some(items@),
    }
}

/// Extracts the coefficients of the rational-polynomial model from the
/// "KEY=VALUE" items of the metadata domain that holds them, or from the
/// absence of that domain.
pub fn extract_rpc<P>(domain: Option<&Vec<String>>, parse: P) -> (r: Result<
    RpcCoefficients,
    RspError,
>) where P: Fn(String) -> Option<Binary64> + Copy
    requires
        forall|text: String| call_requires(parse, (text,)),
    ensures
        extracts(items_of(domain), parse, r),
{
    let items: &Vec<String> = match domain {
        None => {
            return Err(RspError::Io(String::from_str("RPC metadata not found")));
        },
        Some(items) => items,
    };
    let metadata: Metadata = Metadata::from_items(items);
    if metadata.is_empty() {
        return Err(RspError::Io(String::from_str("RPC metadata not found or empty")));
    }
    let zero: Binary64 = Binary64 { bits: 0 };
    let mut coeffs: RpcCoefficients = RpcCoefficients {
        line_num_coeff: [zero;20],
        line_den_coeff: [zero;20],
        samp_num_coeff: [zero;20],
        samp_den_coeff: [zero;20],
        lat_off: zero,
        lat_scale: zero,
        lon_off: zero,
        lon_scale: zero,
        height_off: zero,
        height_scale: zero,
        line_off: zero,
        line_scale: zero,
        samp_off: zero,
        samp_scale: zero,
    };
    match parse_coeff_array(&metadata, "LINE_NUM_COEFF", parse) {
        Err(error) => {
            proof {
                assert(reads_group(metadata@, parse, 0, Err::<Seq<Binary64>, RspError>(error)));
                assert(reads_groups(metadata@, parse, 0, coeffs));
            }
            return Err(error);
        },
        Ok(numbers) => {
            coeffs.line_num_coeff = numbers;
        },
    }
    proof {
        assert(reads_group(metadata@, parse, 0, Ok::<Seq<Binary64>, RspError>(group_values(coeffs, 0))));
        assert(reads_groups(metadata@, parse, 1, coeffs));
    }
    match parse_coeff_array(&metadata, "LINE_DEN_COEFF", parse) {
        Err(error) => {
            proof {
                assert(reads_group(metadata@, parse, 1, Err::<Seq<Binary64>, RspError>(error)));
                assert(reads_groups(metadata@, parse, 1, coeffs));
            }
            return Err(error);
        },
        Ok(numbers) => {
            coeffs.line_den_coeff = numbers;
        },
    }
    proof {
        assert(reads_group(metadata@, parse, 1, Ok::<Seq<Binary64>, RspError>(group_values(coeffs, 1))));
        assert(reads_groups(metadata@, parse, 2, coeffs));
    }
    match parse_coeff_array(&metadata, "SAMP_NUM_COEFF", parse) {
        Err(error) => {
            proof {
                assert(reads_group(metadata@, parse, 2, Err::<Seq<Binary64>, RspError>(error)));
                assert(reads_groups(metadata@, parse, 2, coeffs));
            }
            return Err(error);
        },
        Ok(numbers) => {
            coeffs.samp_num_coeff = numbers;
        },
    }
    proof {
        assert(reads_group(metadata@, parse, 2, Ok::<Seq<Binary64>, RspError>(group_values(coeffs, 2))));
        assert(reads_groups(metadata@, parse, 3, coeffs));
    }
    match parse_coeff_array(&metadata, "SAMP_DEN_COEFF", parse) {
        Err(error) => {
            proof {
                assert(reads_group(metadata@, parse, 3, Err::<Seq<Binary64>, RspError>(error)));
                assert(reads_groups(metadata@, parse, 3, coeffs));
            }
            return Err(error);
        },
        Ok(numbers) => {
            coeffs.samp_den_coeff = numbers;
        },
    }
    proof {
        assert(reads_group(metadata@, parse, 3, Ok::<Seq<Binary64>, RspError>(group_values(coeffs, 3))));
        assert(reads_groups(metadata@, parse, 4, coeffs));
    }
    match parse_single(&metadata, "LAT_OFF", parse) {
        Err(error) => {
            proof {
                assert(reads_group(metadata@, parse, 4, Err::<Seq<Binary64>, RspError>(error)));
                assert(reads_groups(metadata@, parse, 4, coeffs));
            }
            return Err(error);
        },
        Ok(number) => {
            coeffs.lat_off = number;
        },
    }
    proof {
        assert(reads_group(metadata@, parse, 4, Ok::<Seq<Binary64>, RspError>(group_values(coeffs, 4))));
        assert(reads_groups(metadata@, parse, 5, coeffs));
    }
    match parse_single(&metadata, "LAT_SCALE", parse) {
        Err(error) => {
            proof {
                assert(reads_group(metadata@, parse, 5, Err::<Seq<Binary64>, RspError>(error)));
                assert(reads_groups(metadata@, parse, 5, coeffs));
            }
            return Err(error);
        },
        Ok(number) => {
            coeffs.lat_scale = number;
        },
    }
    proof {
        assert(reads_group(metadata@, parse, 5, Ok::<Seq<Binary64>, RspError>(group_values(coeffs, 5))));
        assert(reads_groups(metadata@, parse, 6, coeffs));
    }
    match parse_single(&metadata, "LONG_OFF", parse) {
        Err(error) => {
            proof {
                assert(reads_group(metadata@, parse, 6, Err::<Seq<Binary64>, RspError>(error)));
                assert(reads_groups(metadata@, parse, 6, coeffs));
            }
            return Err(error);
        },
        Ok(number) => {
            coeffs.lon_off = number;
        },
    }
    proof {
        assert(reads_group(metadata@, parse, 6, Ok::<Seq<Binary64>, RspError>(group_values(coeffs, 6))));
        assert(reads_groups(metadata@, parse, 7, coeffs));
    }
    match parse_single(&metadata, "LONG_SCALE", parse) {
        Err(error) => {
            proof {
                assert(reads_group(metadata@, parse, 7, Err::<Seq<Binary64>, RspError>(error)));
                assert(reads_groups(metadata@, parse, 7, coeffs));
            }
            return Err(error);
        },
        Ok(number) => {
            coeffs.lon_scale = number;
        },
    }
    proof {
        assert(reads_group(metadata@, parse, 7, Ok::<Seq<Binary64>, RspError>(group_values(coeffs, 7))));
        assert(reads_groups(metadata@, parse, 8, coeffs));
    }
    match parse_single(&metadata, "HEIGHT_OFF", parse) {
        Err(error) => {
            proof {
                assert(reads_group(metadata@, parse, 8, Err::<Seq<Binary64>, RspError>(error)));
                assert(reads_groups(metadata@, parse, 8, coeffs));
            }
            return Err(error);
        },
        Ok(number) => {
            coeffs.height_off = number;
        },
    }
    proof {
        assert(reads_group(metadata@, parse, 8, Ok::<Seq<Binary64>, RspError>(group_values(coeffs, 8))));
        assert(reads_groups(metadata@, parse, 9, coeffs));
    }
    match parse_single(&metadata, "HEIGHT_SCALE", parse) {
        Err(error) => {
            proof {
                assert(reads_group(metadata@, parse, 9, Err::<Seq<Binary64>, RspError>(error)));
                assert(reads_groups(metadata@, parse, 9, coeffs));
            }
            return Err(error);
        },
        Ok(number) => {
            coeffs.height_scale = number;
        },
    }
    proof {
        assert(reads_group(metadata@, parse, 9, Ok::<Seq<Binary64>, RspError>(group_values(coeffs, 9))));
        assert(reads_groups(metadata@, parse, 10, coeffs));
    }
    match parse_single(&metadata, "LINE_OFF", parse) {
        Err(error) => {
            proof {
                assert(reads_group(metadata@, parse, 10, Err::<Seq<Binary64>, RspError>(error)));
                assert(reads_groups(metadata@, parse, 10, coeffs));
            }
            return Err(error);
        },
        Ok(number) => {
            coeffs.line_off = number;
        },
    }
    proof {
        assert(reads_group(metadata@, parse, 10, Ok::<Seq<Binary64>, RspError>(group_values(coeffs, 10))));
        assert(reads_groups(metadata@, parse, 11, coeffs));
    }
    match parse_single(&metadata, "LINE_SCALE", parse) {
        Err(error) => {
            proof {
                assert(reads_group(metadata@, parse, 11, Err::<Seq<Binary64>, RspError>(error)));
                assert(reads_groups(metadata@, parse, 11, coeffs));
            }
            return Err(error);
        },
        Ok(number) => {
            coeffs.line_scale = number;
        },
    }
    proof {
        assert(reads_group(metadata@, parse, 11, Ok::<Seq<Binary64>, RspError>(group_values(coeffs, 11))));
        assert(reads_groups(metadata@, parse, 12, coeffs));
    }
    match parse_single(&metadata, "SAMP_OFF", parse) {
        Err(error) => {
            proof {
                assert(reads_group(metadata@, parse, 12, Err::<Seq<Binary64>, RspError>(error)));
                assert(reads_groups(metadata@, parse, 12, coeffs));
            }
            return Err(error);
        },
        Ok(number) => {
            coeffs.samp_off = number;
        },
    }
    proof {
        assert(reads_group(metadata@, parse, 12, Ok::<Seq<Binary64>, RspError>(group_values(coeffs, 12))));
        assert(reads_groups(metadata@, parse, 13, coeffs));
    }
    match parse_single(&metadata, "SAMP_SCALE", parse) {
        Err(error) => {
            proof {
                assert(reads_group(metadata@, parse, 13, Err::<Seq<Binary64>, RspError>(error)));
                assert(reads_groups(metadata@, parse, 13, coeffs));
            }
            return Err(error);
        },
        Ok(number) => {
            coeffs.samp_scale = number;
        },
    }
    proof {
        assert(reads_group(metadata@, parse, 13, Ok::<Seq<Binary64>, RspError>(group_values(coeffs, 13))));
        assert(reads_groups(metadata@, parse, 14, coeffs));
    }
    Ok(coeffs)
}

impl Default for ImageMetadata {
    fn default() -> (metadata: ImageMetadata)
        ensures
            metadata.rpc is None,
            metadata.gps_position is None,
            metadata.imu_orientation is None,
            metadata.timestamp is None,
            metadata.camera_id is None,
    {
        ImageMetadata {
            rpc: None,
            gps_position: None,
            imu_orientation: None,
            timestamp: None,
            camera_id: None,
        }
    }
}

impl ImageMetadata {
    /// The metadata of an image with the given domain of coefficients: the
    /// coefficients if they can be extracted, and nothing else.
    pub fn from_gdal_dataset<P>(rpc_domain: Option<&Vec<String>>, parse: P) -> (metadata:
        ImageMetadata) where P: Fn(String) -> Option<Binary64> + Copy
        requires
            forall|text: String| call_requires(parse, (text,)),
        ensures
            exists|extracted: Result<RpcCoefficients, RspError>|
                #[trigger] extracts(items_of(rpc_domain), parse, extracted) && metadata.rpc
                    == match extracted {
                    Ok(coeffs) => Some(coeffs),
                    Err(_) => None::<RpcCoefficients>,
                },
            metadata.gps_position is None,
            metadata.imu_orientation is None,
            metadata.timestamp is None,
            metadata.camera_id is None,
    {
        let rpc: Option<RpcCoefficients> = match extract_rpc(rpc_domain, parse) {
            Ok(coeffs) => Some(coeffs),
            Err(_) => None,
        };
        ImageMetadata {
            rpc,
            gps_position: None,
            imu_orientation: None,
            timestamp: None,
            camera_id: None,
        }
    }

    /// Whether the image has coefficients of the rational-polynomial model.
    pub fn has_rpc(&self) -> (r: bool)
        ensures
            r == self.rpc is Some,
    {
        self.rpc.is_some()
    }
}

} // verus!
