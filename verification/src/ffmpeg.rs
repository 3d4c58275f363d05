//! The encoder: how its command line is put together.

use crate::text::{begins, decimal, decimal_text, first_containing, part_of, starts_with};
use vstd::prelude::*;
use vstd::string::StringExecFns;

verus! {

/// The container that the encoder writes.
#[derive(Clone, Copy, Debug, PartialEq, Eq, Structural)]
pub enum OutputType {
    FLV,
    MP4,
}

/// Where the encoder writes, and in which container.
#[derive(Debug, PartialEq, Eq)]
pub struct Output {
    pub path: String,
    pub output_type: OutputType,
}

/// How the picture is encoded.
#[derive(Clone, Copy, Debug, PartialEq, Eq, Structural)]
pub enum VideoEncoder {
    SoftwareH264,
    VAAPIH264,
    Copy,
}

/// How the sound is encoded.
#[derive(Clone, Copy, Debug, PartialEq, Eq, Structural)]
pub enum AudioEncoder {
    AAC,
    Copy,
}

/// Why no command line could be put together.
#[derive(Clone, Copy, Debug, PartialEq, Eq, Structural)]
pub enum EncoderError {
    /// The hardware encoder was asked for and no render device was given.
    RendererNotFound,
    /// No output has been set.
    OutputNotDefined,
}

/// The settings of an encoder run.
#[derive(Debug, PartialEq, Eq)]
pub struct FFmpeg {
    pub output: Option<Output>,
    pub video_encoder: VideoEncoder,
    pub audio_encoder: AudioEncoder,
}

/// The arguments in front of all others: they keep the encoder quiet.
pub open spec fn leading_arguments() -> Seq<Seq<char>> {
    seq!["-hide_banner"@, "-loglevel"@, "error"@]
}

/// The arguments that choose the video encoder; `renderer` is the render
/// device that the hardware encoder is to use.
pub open spec fn video_arguments(encoder: VideoEncoder, renderer: Seq<char>) -> Seq<Seq<char>> {
    match encoder {
        VideoEncoder::VAAPIH264 => seq![
            "-vaapi_device"@,
            renderer,
            "-vf"@,
            "format=nv12,hwupload"@,
            "-c:v"@,
            "h264_vaapi"@,
        ],
        VideoEncoder::SoftwareH264 => seq!["-c:v"@, "libx264"@],
        VideoEncoder::Copy => seq!["-c:v"@, "copy"@],
    }
}

/// The arguments that choose the audio encoder.
pub open spec fn audio_arguments(encoder: AudioEncoder) -> Seq<Seq<char>> {
    match encoder {
        AudioEncoder::AAC => seq!["-c:a"@, "aac"@],
        AudioEncoder::Copy => seq!["-c:a"@, "copy"@],
    }
}

/// The arguments that name the container and the output.
pub open spec fn output_arguments(output_type: OutputType, path: Seq<char>) -> Seq<Seq<char>> {
    seq![
        "-f"@,
        match output_type {
            OutputType::FLV => "flv"@,
            OutputType::MP4 => "mp4"@,
        },
        path,
    ]
}

/// The texts of a list of arguments.
pub open spec fn texts(arguments: Seq<String>) -> Seq<Seq<char>> {
    arguments.map_values(|a: String| a@)
}

impl FFmpeg {
    /// What `arguments` answers: the leading arguments, the caller's, those
    /// of the video encoder, those of the audio encoder and those of the
    /// output, in this order. The hardware encoder needs a render device,
    /// and every run needs an output; the want of a device is found first.
    pub open spec fn command_line(
        &self,
        extra: Seq<Seq<char>>,
        renderer: Option<Seq<char>>,
    ) -> Result<Seq<Seq<char>>, EncoderError> {
        if self.video_encoder == VideoEncoder::VAAPIH264 && renderer is None {
            Err(EncoderError::RendererNotFound)
        } else {
            match self.output {
                None => Err(EncoderError::OutputNotDefined),
                Some(output) => Ok(
                    leading_arguments() + extra + video_arguments(
                        self.video_encoder,
                        match renderer {
                            Some(r) => r,
                            None => Seq::empty(),
                        },
                    ) + audio_arguments(self.audio_encoder) + output_arguments(
                        output.output_type,
                        output.path@,
                    ),
                ),
            }
        }
    }

    /// Settings without an output, for the hardware video encoder and AAC
    /// sound.
    pub fn new() -> (settings: FFmpeg)
        ensures
            settings.output is None,
            settings.video_encoder == VideoEncoder::VAAPIH264,
            settings.audio_encoder == AudioEncoder::AAC,
    {
        FFmpeg {
            output: None,
            video_encoder: VideoEncoder::VAAPIH264,
            audio_encoder: AudioEncoder::AAC,
        }
    }

    /// Puts the command line of the encoder together; `extra` are the
    /// caller's own arguments and `renderer` is the render device, where
    /// one was found.
    pub fn arguments(&self, extra: &Vec<String>, renderer: Option<&str>) -> (result: Result<
        Vec<String>,
        EncoderError,
    >)
        ensures
            match result {
                Ok(line) => self.command_line(
                    texts(extra@),
                    match renderer {
                        Some(r) => Some(r@),
                        None => None,
                    },
                ) == Ok::<Seq<Seq<char>>, EncoderError>(texts(line@)),
                Err(e) => self.command_line(
                    texts(extra@),
                    match renderer {
                        Some(r) => Some(r@),
                        None => None,
                    },
                ) == Err::<Seq<Seq<char>>, EncoderError>(e),
            },
    {
        let mut line: Vec<String> = Vec::new();
        line.push(String::from_str("-hide_banner"));
        line.push(String::from_str("-loglevel"));
        line.push(String::from_str("error"));
        assert(texts(line@) =~= leading_arguments());
        let mut i: usize = 0;
        while i < extra.len()
            invariant
                i <= extra@.len(),
                texts(line@) == leading_arguments() + texts(extra@).subrange(0, i as int),
            decreases extra@.len() - i,
        {
            let ghost before = texts(line@);
            line.push(extra[i].clone());
            assert(texts(line@) =~= before.push(extra@[i as int]@));
            assert(texts(extra@).subrange(0, i + 1) =~= texts(extra@).subrange(0, i as int).push(
                extra@[i as int]@,
            ));
            i += 1;
        }
        assert(texts(extra@).subrange(0, i as int) =~= texts(extra@));
        let ghost front = texts(line@);
        match self.video_encoder {
            VideoEncoder::VAAPIH264 => {
                let device = match renderer {
                    Some(device) => device,
                    None => {
                        return Err(EncoderError::RendererNotFound);
                    },
                };
                line.push(String::from_str("-vaapi_device"));
                line.push(String::from_str(device));
                line.push(String::from_str("-vf"));
                line.push(String::from_str("format=nv12,hwupload"));
                line.push(String::from_str("-c:v"));
                line.push(String::from_str("h264_vaapi"));
                assert(texts(line@) =~= front + video_arguments(self.video_encoder, device@));
            },
            VideoEncoder::SoftwareH264 => {
                line.push(String::from_str("-c:v"));
                line.push(String::from_str("libx264"));
                assert(texts(line@) =~= front + video_arguments(self.video_encoder, Seq::empty()));
            },
            VideoEncoder::Copy => {
                line.push(String::from_str("-c:v"));
                line.push(String::from_str("copy"));
                assert(texts(line@) =~= front + video_arguments(self.video_encoder, Seq::empty()));
            },
        }
        let ghost with_video = texts(line@);
        match self.audio_encoder {
            AudioEncoder::AAC => {
                line.push(String::from_str("-c:a"));
                line.push(String::from_str("aac"));
            },
            AudioEncoder::Copy => {
                line.push(String::from_str("-c:a"));
                line.push(String::from_str("copy"));
            },
        }
        assert(texts(line@) =~= with_video + audio_arguments(self.audio_encoder));
        let ghost with_audio = texts(line@);
        let output = match &self.output {
            Some(output) => output,
            None => {
                return Err(EncoderError::OutputNotDefined);
            },
        };
        line.push(String::from_str("-f"));
        match output.output_type {
            OutputType::FLV => {
                line.push(String::from_str("flv"));
            },
            OutputType::MP4 => {
                line.push(String::from_str("mp4"));
            },
        }
        line.push(output.path.clone());
        assert(texts(line@) =~= with_audio + output_arguments(output.output_type, output.path@));
        Ok(line)
    }
}

/// Picks the render device for the hardware encoder among the names of the
/// devices found: the first whose name has `render` in it.
pub fn get_vaapi_renderer(names: &Vec<String>) -> (place: Option<usize>)
    ensures
        place matches Some(k) ==> k < names@.len() && part_of("render"@, names@[k as int]@)
            && forall|j: int| 0 <= j < k ==> !part_of("render"@, (#[trigger] names@[j])@),
        place is None ==> forall|j: int|
            0 <= j < names@.len() ==> !part_of("render"@, (#[trigger] names@[j])@),
{
    first_containing(names, "render")
}

/// The bit rate that is asked for where the settings name no highest one,
/// in thousands of bits a second.
pub const DEFAULT_MAX_RATE: usize = 4000;

/// The bit rate that is asked for where the settings name no lowest one,
/// in thousands of bits a second.
pub const DEFAULT_MIN_RATE: usize = 500;

/// A bit rate as the encoder wants it written: the number, then `K`.
pub open spec fn rate(thousands: nat) -> Seq<char> {
    decimal(thousands) + "K"@
}

/// The arguments that bound the bit rate of the picture. Where no highest
/// rate is given it is 4000, where no lowest it is 500, and where no
/// average is given it is the highest.
pub open spec fn rate_arguments_of(
    min_rate: Option<usize>,
    max_rate: Option<usize>,
    avg_rate: Option<usize>,
) -> Seq<Seq<char>> {
    let highest = match max_rate {
        Some(r) => r,
        None => DEFAULT_MAX_RATE,
    };
    let lowest = match min_rate {
        Some(r) => r,
        None => DEFAULT_MIN_RATE,
    };
    let average = match avg_rate {
        Some(r) => r,
        None => highest,
    };
    seq![
        "-b:v"@,
        rate(average as nat),
        "-minrate:v"@,
        rate(lowest as nat),
        "-maxrate:v"@,
        rate(highest as nat),
        "-bufsize:v"@,
        "10M"@,
        "-preset"@,
        "fast"@,
    ]
}

/// Writes a bit rate as the encoder wants it.
fn rate_text(thousands: usize) -> (text: String)
    ensures
        text@ == rate(thousands as nat),
{
    decimal_text(thousands).concat("K")
}

/// Puts together the arguments that bound the bit rate of the picture;
/// the rates are in thousands of bits a second.
pub fn rate_arguments(min_rate: Option<usize>, max_rate: Option<usize>, avg_rate: Option<usize>) -> (
    arguments: Vec<String>)
    ensures
        texts(arguments@) == rate_arguments_of(min_rate, max_rate, avg_rate),
{
    let highest = match max_rate {
        Some(r) => r,
        None => DEFAULT_MAX_RATE,
    };
    let lowest = match min_rate {
        Some(r) => r,
        None => DEFAULT_MIN_RATE,
    };
    let average = match avg_rate {
        Some(r) => r,
        None => highest,
    };
    let mut arguments: Vec<String> = Vec::new();
    arguments.push(String::from_str("-b:v"));
    arguments.push(rate_text(average));
    arguments.push(String::from_str("-minrate:v"));
    arguments.push(rate_text(lowest));
    arguments.push(String::from_str("-maxrate:v"));
    arguments.push(rate_text(highest));
    arguments.push(String::from_str("-bufsize:v"));
    arguments.push(String::from_str("10M"));
    arguments.push(String::from_str("-preset"));
    arguments.push(String::from_str("fast"));
    assert(texts(arguments@) =~= rate_arguments_of(min_rate, max_rate, avg_rate));
    arguments
}

/// Chooses the output for the address that the stream goes to: an address
/// that begins with `rtmp://` gets the stream in the FLV container; for any
/// other address there is no output.
pub fn output_for(stream_url: &str) -> (output: Option<Output>)
    ensures
        output is Some <==> begins(stream_url@, "rtmp://"@),
        output matches Some(o) ==> o.path@ == stream_url@ && o.output_type == OutputType::FLV,
{
    if starts_with(stream_url, "rtmp://") {
        Some(Output { path: String::from_str(stream_url), output_type: OutputType::FLV })
    } else {
        None
    }
}

} // verus!
