//! The pipeline descriptions of the sources and sinks of the voices: live
//! devices of the sound server, or files for a run without devices.

use crate::text::{decimal_digits, digits_string, lemma_texts_push, replace, replaced, texts};
use vstd::prelude::*;

verus! {

/// The source that captures from a device of the sound server.
pub open spec fn device_source(device: Seq<char>) -> Seq<char> {
    "pulsesrc device="@ + device
}

/// The source that reads a recording from a file.
pub open spec fn file_source(filename: Seq<char>) -> Seq<char> {
    "filesrc location="@ + filename + " ! wavparse"@
}

/// The sink that plays on the output that belongs to the input of a source:
/// named like the source, with `output` for `input` and then `stereo` for `mono`.
pub open spec fn device_sink(source: Seq<char>) -> Seq<char> {
    "pulsesink device="@ + replaced(replaced(source, "input"@, "output"@), "mono"@, "stereo"@)
}

/// The sink that writes what voice `index` hears to a file.
pub open spec fn file_sink(index: nat) -> Seq<char> {
    "filesink location=output_"@ + decimal_digits(index) + ".wav"@
}

/// The sources of the voices: one for each file if files are given, else
/// one for each device.
pub open spec fn sources_for(devices: Seq<Seq<char>>, filenames: Seq<Seq<char>>) -> Seq<
    Seq<char>,
> {
    if filenames.len() == 0 {
        Seq::new(devices.len(), |i: int| device_source(devices[i]))
    } else {
        Seq::new(filenames.len(), |i: int| file_source(filenames[i]))
    }
}

/// The sinks of the voices: one file for each given file if files are given,
/// else the output that belongs to each source.
pub open spec fn sinks_for(sources: Seq<Seq<char>>, filenames: Seq<Seq<char>>) -> Seq<Seq<char>> {
    if filenames.len() == 0 {
        Seq::new(sources.len(), |i: int| device_sink(sources[i]))
    } else {
        Seq::new(filenames.len(), |i: int| file_sink(i as nat))
    }
}

/// Describes the source that captures from a device.
pub fn make_device_source(device: &String) -> (source: String)
    ensures
        source@ == device_source(device@),
{
    let mut source = String::new();
    source.append("pulsesrc device=");
    source.append(device.as_str());
    assert(source@ =~= device_source(device@));
    source
}

/// Describes the source that reads from a file.
pub fn make_file_source(filename: &String) -> (source: String)
    ensures
        source@ == file_source(filename@),
{
    let mut source = String::new();
    source.append("filesrc location=");
    source.append(filename.as_str());
    source.append(" ! wavparse");
    assert(source@ =~= file_source(filename@));
    source
}

/// Describes the sink that belongs to a source.
pub fn make_device_sink(source: &String) -> (sink: String)
    ensures
        sink@ == device_sink(source@),
{
    let output = replace(source.as_str(), "input", "output");
    let stereo = replace(output.as_str(), "mono", "stereo");
    let mut sink = String::new();
    sink.append("pulsesink device=");
    sink.append(stereo.as_str());
    assert(sink@ =~= device_sink(source@));
    sink
}

/// Describes the sink that writes to the file of voice `index`.
pub fn make_file_sink(index: usize) -> (sink: String)
    ensures
        sink@ == file_sink(index as nat),
{
    let mut sink = String::new();
    sink.append("filesink location=output_");
    sink.append(digits_string(index as u64).as_str());
    sink.append(".wav");
    assert(sink@ =~= file_sink(index as nat));
    sink
}

/// Describes the sources of the voices.
pub fn make_sources(source_devices: &Vec<String>, filenames: &Vec<String>) -> (sources: Vec<
    String,
>)
    ensures
        texts(sources@) == sources_for(texts(source_devices@), texts(filenames@)),
{
    let mut sources: Vec<String> = Vec::new();
    if filenames.len() == 0 {
        let mut i: usize = 0;
        while i < source_devices.len()
            invariant
                i <= source_devices.len(),
                texts(sources@) == Seq::new(
                    i as nat,
                    |k: int| device_source(texts(source_devices@)[k]),
                ),
            decreases source_devices.len() - i,
        {
            let source = make_device_source(&source_devices[i]);
            proof {
                lemma_texts_push(sources@, source);
            }
            sources.push(source);
            assert(texts(sources@) =~= Seq::new(
                (i + 1) as nat,
                |k: int| device_source(texts(source_devices@)[k]),
            ));
            i += 1;
        }
    } else {
        let mut i: usize = 0;
        while i < filenames.len()
            invariant
                i <= filenames.len(),
                texts(sources@) == Seq::new(i as nat, |k: int| file_source(texts(filenames@)[k])),
            decreases filenames.len() - i,
        {
            let source = make_file_source(&filenames[i]);
            proof {
                lemma_texts_push(sources@, source);
            }
            sources.push(source);
            assert(texts(sources@) =~= Seq::new(
                (i + 1) as nat,
                |k: int| file_source(texts(filenames@)[k]),
            ));
            i += 1;
        }
    }
    sources
}

/// Describes the sinks of the voices.
pub fn make_sinks(sources: &Vec<String>, filenames: &Vec<String>) -> (sinks: Vec<String>)
    ensures
        texts(sinks@) == sinks_for(texts(sources@), texts(filenames@)),
{
    let mut sinks: Vec<String> = Vec::new();
    if filenames.len() == 0 {
        let mut i: usize = 0;
        while i < sources.len()
            invariant
                i <= sources.len(),
                texts(sinks@) == Seq::new(i as nat, |k: int| device_sink(texts(sources@)[k])),
            decreases sources.len() - i,
        {
            let sink = make_device_sink(&sources[i]);
            proof {
                lemma_texts_push(sinks@, sink);
            }
            sinks.push(sink);
            assert(texts(sinks@) =~= Seq::new(
                (i + 1) as nat,
                |k: int| device_sink(texts(sources@)[k]),
            ));
            i += 1;
        }
    } else {
        let mut i: usize = 0;
        while i < filenames.len()
            invariant
                i <= filenames.len(),
                texts(sinks@) == Seq::new(i as nat, |k: int| file_sink(k as nat)),
            decreases filenames.len() - i,
        {
            let sink = make_file_sink(i);
            proof {
                lemma_texts_push(sinks@, sink);
            }
            sinks.push(sink);
            assert(texts(sinks@) =~= Seq::new((i + 1) as nat, |k: int| file_sink(k as nat)));
            i += 1;
        }
    }
    sinks
}

} // verus!
