//! Encoding and decoding of MP4 (ISO base media file format) atoms, with verified contracts.

pub mod atom;
pub mod bits;
pub mod codec;
pub mod container;
pub mod error;
pub mod ext;
pub mod fourcc;
pub mod moov;
pub mod prft;
pub mod reader;
pub mod sidx;
pub mod text;
pub mod types;
pub mod unknown;
pub mod uuid;

pub use atom::{Atom, Decode, Encode, Header};
pub use error::Error;
pub use fourcc::FourCC;
pub use moov::trak::mdia::minf::sthd::Sthd;
pub use moov::trak::mdia::minf::stbl::stsd::audio::Audio;
pub use moov::trak::mdia::minf::stbl::stsd::btrt::Btrt;
pub use moov::trak::mdia::minf::stbl::stsd::ccst::Ccst;
pub use moov::trak::mdia::minf::stbl::stsd::colr::Colr;
pub use moov::trak::mdia::minf::stbl::stsd::fiel::Fiel;
pub use moov::trak::mdia::minf::stbl::stsd::chnl::{
    AudioChannelPosition, ChannelStructure, Chnl, ExplicitSpeakerPosition, SpeakerPosition,
};
pub use moov::trak::mdia::minf::stbl::stsd::ftab::{FontEntry, Ftab};
pub use moov::trak::mdia::minf::stbl::stsd::metadata::MetaData;
pub use moov::trak::mdia::minf::stbl::stsd::mp4a::esds::{
    DecoderConfig, DecoderSpecific, Descriptor, EsDescriptor, Esds, SLConfig,
};
pub use moov::trak::mdia::minf::stbl::stsd::mp4a::Mp4a;
pub use moov::trak::mdia::minf::stbl::stsd::mp4v::Mp4v;
pub use moov::trak::mdia::minf::stbl::stsd::opus::{Dops, Opus};
pub use moov::trak::mdia::minf::stbl::stsd::pasp::Pasp;
pub use moov::trak::mdia::minf::stbl::stsd::pcm::{
    Fl32, Fl64, Fpcm, In24, In32, Ipcm, Lpcm, Pcm, PcmC, PcmFormat, S16l, Sowt, Twos,
};
pub use moov::trak::mdia::minf::stbl::stsd::plaintext::PlainText;
pub use moov::trak::mdia::minf::stbl::stsd::taic::{ClockType, Taic};
pub use moov::trak::mdia::minf::stbl::stsd::tx3g::{RgbaColor, Tx3g};
pub use moov::trak::mdia::minf::stbl::stsd::uncv::{
    Cmpd, Component, UncC, UncompressedComponent, Uncv,
};
pub use moov::trak::mdia::minf::stbl::stsd::urim::{Uri, UriI, Urim};
pub use moov::trak::mdia::minf::stbl::stsd::visual::Visual;
pub use moov::trak::mdia::minf::stbl::stsd::vp9::{vp09::Vp09, vpcc::VpcC};
pub use moov::trak::mdia::minf::stbl::stsd::vpcc::Vpcc;
pub use moov::trak::mdia::minf::stbl::stsd::wvtt::{Vlab, VttC, Wvtt};
pub use moov::trak::mdia::minf::stbl::stss::Stss;
pub use moov::trak::mdia::minf::stbl::stsz::Stsz;
pub use moov::trak::mdia::minf::stbl::stts::{Stts, SttsEntry};
pub use moov::trak::mdia::minf::stbl::stz2::Stz2;
pub use moov::trak::mdia::minf::stbl::subs::{Subs, SubsEntry, SubsSubsample, SubsSubsampleSize};
pub use moov::trak::mdia::minf::vmhd::{RgbColor, Vmhd};
pub use moov::trak::mdia::hdlr::Hdlr;
pub use moov::trak::tkhd::{Matrix, Tkhd};
pub use moov::trak::tref::{TrackReferenceTypeBox, Tref};
pub use moov::udta::chpl::{Chpl, ChplEntry};
pub use moov::udta::cprt::Cprt;
pub use moov::udta::kind::Kind;
pub use moov::udta::meta::ilst::covr::Covr;
pub use moov::udta::meta::Meta;
pub use moov::udta::meta::ilst::data::{Data, DataType};
pub use moov::udta::meta::ilst::item::{item_to_bytes, item_to_str, item_to_u32, IlstItem};
pub use moov::udta::meta::ilst::text_item::{Desc, Name, Year};
pub use moov::udta::rtng::Rtng;
pub use moov::udta::Udta;
pub use prft::{Prft, ReferenceTime};
pub use reader::ReaderHeader;
pub use sidx::{SegmentReference, Sidx};
pub use types::{u24, u48, Compressor, FixedPoint};
pub use unknown::Unknown;
pub use uuid::{C2pa, ExtendedType, Uuid, UuidAtom};
