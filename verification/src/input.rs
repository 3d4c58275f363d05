//! Choosing among the devices that were found: the camera, the audio
//! source, the capture stick, and the network interfaces that are up.

use crate::text::{contains, last_containing, part_of};
use vstd::prelude::*;
use vstd::utf8::encode_utf8;

verus! {

/// Why nothing was chosen.
#[derive(Clone, Copy, Debug, PartialEq, Eq, Structural)]
pub enum InputError {
    /// No camera fits.
    NotFound,
    /// No audio source fits.
    NoInputFound,
}

/// A video device: the name of its node, and the name it gives itself.
#[derive(Debug, PartialEq, Eq)]
pub struct VideoDevice {
    pub dev_name: String,
    pub camera_name: String,
}

/// `a` comes no later than `b` where texts are ordered byte by byte, the
/// shorter of two that begin alike first.
pub open spec fn no_later(a: Seq<u8>, b: Seq<u8>) -> bool
    decreases a.len(),
{
    if a.len() == 0 {
        true
    } else if b.len() == 0 {
        false
    } else if a[0] != b[0] {
        a[0] < b[0]
    } else {
        no_later(a.drop_first(), b.drop_first())
    }
}

/// Of two texts one comes no later than the other.
pub proof fn lemma_no_later_total(a: Seq<u8>, b: Seq<u8>)
    ensures
        no_later(a, b) || no_later(b, a),
    decreases a.len(),
{
    if a.len() > 0 && b.len() > 0 && a[0] == b[0] {
        lemma_no_later_total(a.drop_first(), b.drop_first());
    }
}

/// What comes no later than a text comes no later than all that the text
/// comes no later than.
pub proof fn lemma_no_later_transitive(a: Seq<u8>, b: Seq<u8>, c: Seq<u8>)
    requires
        no_later(a, b),
        no_later(b, c),
    ensures
        no_later(a, c),
    decreases a.len(),
{
    if a.len() > 0 && b.len() > 0 && c.len() > 0 && a[0] == b[0] && b[0] == c[0] {
        lemma_no_later_transitive(a.drop_first(), b.drop_first(), c.drop_first());
    }
}

/// Two texts of which each comes no later than the other are the same.
pub proof fn lemma_no_later_antisymmetric(a: Seq<u8>, b: Seq<u8>)
    requires
        no_later(a, b),
        no_later(b, a),
    ensures
        a == b,
    decreases a.len(),
{
    if a.len() > 0 && b.len() > 0 {
        lemma_no_later_antisymmetric(a.drop_first(), b.drop_first());
        assert(a =~= seq![a[0]] + a.drop_first());
        assert(b =~= seq![b[0]] + b.drop_first());
    } else {
        assert(a =~= b);
    }
}

/// Whether `a` comes no later than `b`.
pub fn comes_no_later(a: &[u8], b: &[u8]) -> (answer: bool)
    ensures
        answer == no_later(a@, b@),
{
    let mut i: usize = 0;
    assert(a@.skip(0) =~= a@ && b@.skip(0) =~= b@);
    loop
        invariant
            i <= a@.len(),
            i <= b@.len(),
            no_later(a@, b@) == no_later(a@.skip(i as int), b@.skip(i as int)),
        decreases a@.len() - i,
    {
        if i == a.len() {
            return true;
        }
        if i == b.len() {
            return false;
        }
        if a[i] != b[i] {
            return a[i] < b[i];
        }
        assert(a@.skip(i as int).drop_first() =~= a@.skip(i + 1));
        assert(b@.skip(i as int).drop_first() =~= b@.skip(i + 1));
        i += 1;
    }
}

/// The device fits: no pattern was given, or the pattern is a part of the
/// name that the device gives itself.
pub open spec fn fits(device: VideoDevice, pat: Option<Seq<char>>) -> bool {
    match pat {
        Some(p) => part_of(p, device.camera_name@),
        None => true,
    }
}

/// Place `k` holds the camera to use: a device that fits, whose node name
/// comes no later than that of any other device that fits.
pub open spec fn is_camera(devices: Seq<VideoDevice>, pat: Option<Seq<char>>, k: int) -> bool {
    &&& 0 <= k < devices.len()
    &&& fits(devices[k], pat)
    &&& forall|j: int|
        0 <= j < devices.len() && fits(#[trigger] devices[j], pat) ==> no_later(
            encode_utf8(devices[k].dev_name@),
            encode_utf8(devices[j].dev_name@),
        )
}

/// Chooses the camera among the video devices found: of those that fit the
/// pattern, the one whose node comes first by name. The answer is the path
/// of the node under `/dev/`.
pub fn get_camera(pat: Option<&str>, devices: &Vec<VideoDevice>) -> (result: Result<
    String,
    InputError,
>)
    ensures
        match result {
            Ok(path) => exists|k: int|
                is_camera(
                    devices@,
                    match pat {
                        Some(p) => Some(p@),
                        None => None,
                    },
                    k,
                ) && path@ == "/dev/"@ + devices@[k].dev_name@,
            Err(e) => e == InputError::NotFound && forall|j: int|
                0 <= j < devices@.len() ==> !fits(
                    #[trigger] devices@[j],
                    match pat {
                        Some(p) => Some(p@),
                        None => None,
                    },
                ),
        },
{
    let ghost pattern: Option<Seq<char>> = match pat {
        Some(p) => Some(p@),
        None => None,
    };
    let mut best: Option<usize> = None;
    let mut i: usize = 0;
    while i < devices.len()
        invariant
            i <= devices@.len(),
            pattern == match pat {
                Some(p) => Some(p@),
                None => None,
            },
            match best {
                Some(b) => b < i && fits(devices@[b as int], pattern) && forall|j: int|
                    0 <= j < i && fits(#[trigger] devices@[j], pattern) ==> no_later(
                        encode_utf8(devices@[b as int].dev_name@),
                        encode_utf8(devices@[j].dev_name@),
                    ),
                None => forall|j: int| 0 <= j < i ==> !fits(#[trigger] devices@[j], pattern),
            },
        decreases devices@.len() - i,
    {
        let fitting = match pat {
            Some(p) => contains(devices[i].camera_name.as_str(), p),
            None => true,
        };
        if fitting {
            match best {
                None => {
                    best = Some(i);
                    proof {
                        lemma_no_later_total(
                            encode_utf8(devices@[i as int].dev_name@),
                            encode_utf8(devices@[i as int].dev_name@),
                        );
                    }
                },
                Some(b) => {
                    let mine = devices[i].dev_name.as_str().as_bytes();
                    let held = devices[b].dev_name.as_str().as_bytes();
                    if !comes_no_later(held, mine) {
                        proof {
                            lemma_no_later_total(held@, mine@);
                            lemma_no_later_total(mine@, mine@);
                            assert forall|j: int|
                                0 <= j < i && fits(
                                    #[trigger] devices@[j],
                                    pattern,
                                ) implies no_later(mine@, encode_utf8(devices@[j].dev_name@)) by {
                                lemma_no_later_transitive(
                                    mine@,
                                    held@,
                                    encode_utf8(devices@[j].dev_name@),
                                );
                            }
                        }
                        best = Some(i);
                    }
                },
            }
        }
        i += 1;
    }
    match best {
        Some(b) => {
            let path = String::from_str("/dev/").concat(devices[b].dev_name.as_str());
            assert(is_camera(devices@, pattern, b as int));
            Ok(path)
        },
        None => Err(InputError::NotFound),
    }
}

/// The source at place `k` has a name that the pattern is a part of.
pub open spec fn source_fits(sources: Seq<Option<String>>, pat: Seq<char>, k: int) -> bool {
    0 <= k < sources.len() && sources[k] is Some && part_of(pat, sources[k]->0@)
}

/// Place `k` holds the audio source to use: the first whose name the
/// pattern is a part of.
pub open spec fn is_source(sources: Seq<Option<String>>, pat: Seq<char>, k: int) -> bool {
    source_fits(sources, pat, k) && forall|j: int| 0 <= j < k ==> !source_fits(sources, pat, j)
}

/// Chooses the audio source among the sources found, of which some have a
/// name and some have none: the first whose name the pattern is a part of.
/// Without a pattern the answer is the source called `default`, whatever
/// was found.
pub fn get_input_source(pat: Option<&str>, sources: &Vec<Option<String>>) -> (result: Result<
    String,
    InputError,
>)
    ensures
        pat is None ==> result is Ok && result->Ok_0@ == "default"@,
        pat matches Some(p) ==> match result {
            Ok(name) => exists|k: int| is_source(sources@, p@, k) && name@ == sources@[k]->0@,
            Err(e) => e == InputError::NoInputFound && forall|j: int|
                !source_fits(sources@, p@, j),
        },
{
    let pattern = match pat {
        Some(pattern) => pattern,
        None => {
            return Ok(String::from_str("default"));
        },
    };
    let mut i: usize = 0;
    while i < sources.len()
        invariant
            i <= sources@.len(),
            pat == Some(pattern),
            forall|j: int| 0 <= j < i ==> !source_fits(sources@, pattern@, j),
        decreases sources@.len() - i,
    {
        match &sources[i] {
            Some(name) => {
                if contains(name.as_str(), pattern) {
                    let found = name.clone();
                    assert(is_source(sources@, pattern@, i as int));
                    assert(found@ == sources@[i as int]->0@);
                    assert(pat->0@ == pattern@);
                    assert(exists|k: int|
                        is_source(sources@, pattern@, k) && found@ == sources@[k]->0@);
                    return Ok(found);
                }
            },
            None => {},
        }
        i += 1;
    }
    Err(InputError::NoInputFound)
}

/// Finds the capture stick among the product names of the USB devices
/// found: the last whose name has `Cam Link` in it.
pub fn find_camlink(products: &Vec<String>) -> (place: Option<usize>)
    ensures
        place matches Some(k) ==> k < products@.len() && part_of(
            "Cam Link"@,
            products@[k as int]@,
        ) && forall|j: int|
            k < j < products@.len() ==> !part_of("Cam Link"@, (#[trigger] products@[j])@),
        place is None ==> forall|j: int|
            0 <= j < products@.len() ==> !part_of("Cam Link"@, (#[trigger] products@[j])@),
{
    last_containing(products, "Cam Link")
}

/// Whether a network interface is up: whether what its carrier file holds
/// begins with `1`.
pub fn has_carrier(carrier_info: &str) -> (up: bool)
    ensures
        up == (carrier_info@.len() > 0 && carrier_info@[0] == '1'),
{
    !carrier_info.is_empty() && carrier_info.get_char(0) == '1'
}

} // verus!
