//! The decoded in-memory representation: the container, its optional
//! content-info and metadata blocks, and the track blocks, together
//! with the mathematical models the contracts speak of.

use vstd::prelude::*;

verus! {

/// Whether a track block holds MIDI events or PCM samples.
#[derive(Debug, PartialEq, Eq, Structural, Clone, Copy)]
pub enum TrackType {
    MIDI,
    PCM,
    Unknown,
}

/// Outcome of a failed decode.
#[derive(Debug, PartialEq, Eq, Structural, Clone, Copy)]
pub enum MmfParseResult {
    OK,
    NotFoundSmafHeader,
    UnknownError,
}

/// The fixed-layout content-info chunk.
#[derive(Debug, PartialEq)]
pub struct ContentInfoBlock {
    pub signature: String,
    pub size: usize,
    pub class: u8,
    pub file_type: u8,
    pub code_type: u8,
    pub status: u8,
    pub counts: u8,
}

/// Mathematical model of a content-info chunk.
#[verifier::ext_equal]
pub ghost struct ContentInfoModel {
    pub signature: Seq<char>,
    pub size: int,
    pub class: u8,
    pub file_type: u8,
    pub code_type: u8,
    pub status: u8,
    pub counts: u8,
}

impl View for ContentInfoBlock {
    type V = ContentInfoModel;

    open spec fn view(&self) -> ContentInfoModel {
        ContentInfoModel {
            signature: self.signature@,
            size: self.size as int,
            class: self.class,
            file_type: self.file_type,
            code_type: self.code_type,
            status: self.status,
            counts: self.counts,
        }
    }
}

/// The model of a content-info block before (or without) any field read.
pub open spec fn empty_content_info() -> ContentInfoModel {
    ContentInfoModel {
        signature: Seq::<char>::empty(),
        size: 0,
        class: 0,
        file_type: 0,
        code_type: 0,
        status: 0,
        counts: 0,
    }
}

impl ContentInfoBlock {
    /// A content-info block with every field unset.
    pub fn new() -> (r: ContentInfoBlock)
        ensures
            r@ == empty_content_info(),
    {
        ContentInfoBlock {
            signature: String::new(),
            size: 0,
            class: 0,
            file_type: 0,
            code_type: 0,
            status: 0,
            counts: 0,
        }
    }
}

/// The human-readable metadata fields; an absent field is the empty string.
#[derive(Debug, PartialEq)]
pub struct OptionalDataBlock {
    pub song_title: String,
    pub author: String,
    pub copyright: String,
}

/// Mathematical model of the metadata fields.
#[verifier::ext_equal]
pub ghost struct OptionalDataModel {
    pub song_title: Seq<char>,
    pub author: Seq<char>,
    pub copyright: Seq<char>,
}

impl View for OptionalDataBlock {
    type V = OptionalDataModel;

    open spec fn view(&self) -> OptionalDataModel {
        OptionalDataModel {
            song_title: self.song_title@,
            author: self.author@,
            copyright: self.copyright@,
        }
    }
}

/// The model of a metadata block with every field absent.
pub open spec fn empty_optional_data() -> OptionalDataModel {
    OptionalDataModel {
        song_title: Seq::<char>::empty(),
        author: Seq::<char>::empty(),
        copyright: Seq::<char>::empty(),
    }
}

impl OptionalDataBlock {
    /// A metadata block with every field absent.
    pub fn new() -> (r: OptionalDataBlock)
        ensures
            r@ == empty_optional_data(),
    {
        OptionalDataBlock { song_title: String::new(), author: String::new(), copyright: String::new() }
    }
}

/// One track block: a track number, a kind, and its opaque payload.
#[derive(Debug, PartialEq)]
pub struct TrackBlock {
    pub size: usize,
    pub track_no: u8,
    pub track_type: TrackType,
    pub data: Vec<u8>,
}

/// Mathematical model of a track block.
#[verifier::ext_equal]
pub ghost struct TrackModel {
    pub size: int,
    pub track_no: u8,
    pub track_type: TrackType,
    pub data: Seq<u8>,
}

impl View for TrackBlock {
    type V = TrackModel;

    open spec fn view(&self) -> TrackModel {
        TrackModel {
            size: self.size as int,
            track_no: self.track_no,
            track_type: self.track_type,
            data: self.data@,
        }
    }
}

/// The models of a sequence of track blocks, in the same order.
pub open spec fn track_views(v: Seq<TrackBlock>) -> Seq<TrackModel> {
    v.map_values(|t: TrackBlock| t@)
}

/// The model of a track block before any field read.
pub open spec fn empty_track() -> TrackModel {
    TrackModel { size: 0, track_no: 0, track_type: TrackType::Unknown, data: Seq::<u8>::empty() }
}

impl TrackBlock {
    /// A track block with every field unset.
    pub fn new() -> (r: TrackBlock)
        ensures
            r@ == empty_track(),
    {
        TrackBlock { size: 0, track_no: 0, track_type: TrackType::Unknown, data: Vec::new() }
    }
}

/// The fully decoded container.
#[derive(Debug, PartialEq)]
pub struct MmfFileInfo {
    pub data_size: usize,
    pub cnti_block: ContentInfoBlock,
    pub opda_block: OptionalDataBlock,
    pub midi_blocks: Vec<TrackBlock>,
    pub pcm_blocks: Vec<TrackBlock>,
}

/// Mathematical model of a decoded container.
#[verifier::ext_equal]
pub ghost struct MmfModel {
    pub data_size: int,
    pub cnti: ContentInfoModel,
    pub opda: OptionalDataModel,
    pub midi: Seq<TrackModel>,
    pub pcm: Seq<TrackModel>,
}

impl View for MmfFileInfo {
    type V = MmfModel;

    open spec fn view(&self) -> MmfModel {
        MmfModel {
            data_size: self.data_size as int,
            cnti: self.cnti_block@,
            opda: self.opda_block@,
            midi: track_views(self.midi_blocks@),
            pcm: track_views(self.pcm_blocks@),
        }
    }
}

/// The model of a container with nothing decoded into it yet.
pub open spec fn empty_file_info() -> MmfModel {
    MmfModel {
        data_size: 0,
        cnti: empty_content_info(),
        opda: empty_optional_data(),
        midi: Seq::<TrackModel>::empty(),
        pcm: Seq::<TrackModel>::empty(),
    }
}

impl MmfFileInfo {
    /// A container with nothing decoded into it.
    pub fn new() -> (r: MmfFileInfo)
        ensures
            r@ == empty_file_info(),
    {
        let r = MmfFileInfo {
            data_size: 0,
            cnti_block: ContentInfoBlock::new(),
            opda_block: OptionalDataBlock::new(),
            midi_blocks: Vec::new(),
            pcm_blocks: Vec::new(),
        };
        proof {
            assert(r@.midi =~= Seq::<TrackModel>::empty());
            assert(r@.pcm =~= Seq::<TrackModel>::empty());
        }
        r
    }
}

} // verus!
