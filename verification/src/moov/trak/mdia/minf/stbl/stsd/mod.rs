pub mod pasp;
pub mod taic;
pub mod btrt;
pub mod plaintext;
pub mod wvtt;
pub mod metadata;
pub mod urim;
pub mod visual;
pub mod uncv;
pub mod ccst;
pub mod vp9;
pub mod vpcc;
pub mod vp09;
pub mod mp4a;
pub mod audio;
pub mod opus;
pub mod ftab;
pub mod tx3g;
pub mod mp4v;
pub mod chnl;
pub mod pcm;
pub mod colr;
pub mod fiel;
