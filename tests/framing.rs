use osmio::block_decode::decode_block;
use osmio::frame::{read_body, read_length, write_body, write_length, BlobType, Codec, FrameHeader, FramingError};
use osmio::obj_types::{StringOSMObj, StringWay};
use osmio::base::OSMObjBase;
use osmio::writer::{BlockWriter, OSMWriteError};

#[test]
fn truncated_body_is_refused() {
    let h = FrameHeader { blob_type: BlobType::OSMData, raw_size: 100, datasize: 100, codec: Codec::Raw };
    let avail = vec![7u8; 50];
    assert_eq!(read_body(&h, &avail), Err(FramingError::Truncated));
}

#[test]
fn raw_body_size_must_match() {
    let h = FrameHeader { blob_type: BlobType::OSMData, raw_size: 4, datasize: 3, codec: Codec::Raw };
    assert_eq!(read_body(&h, &vec![1, 2, 3]), Err(FramingError::SizeMismatch));
    let ok = FrameHeader { raw_size: 3, ..h };
    assert_eq!(read_body(&ok, &vec![1, 2, 3, 9]), Ok(vec![1, 2, 3]));
}

#[test]
fn unsupported_codec_is_refused() {
    let h = FrameHeader { blob_type: BlobType::OSMData, raw_size: 1, datasize: 1, codec: Codec::Unsupported(4) };
    assert_eq!(read_body(&h, &vec![1]), Err(FramingError::UnsupportedCodec));
}

#[test]
fn corrupt_zlib_is_refused() {
    let h = FrameHeader { blob_type: BlobType::OSMData, raw_size: 3, datasize: 3, codec: Codec::Zlib };
    assert_eq!(read_body(&h, &vec![1, 2, 3]), Err(FramingError::BadCompression));
}

#[test]
fn zlib_round_trip() {
    let raw: Vec<u8> = b"aaaaaaaaaaaaaaaaaaaaaaaaaaaaaaaaaaaaaaaaaaaaaaaaaaaaaaaaaaaaaaaa".to_vec();
    let (h, body) = write_body(BlobType::OSMData, &raw, true).unwrap();
    assert_eq!(h.codec, Codec::Zlib);
    assert_eq!(h.raw_size as usize, raw.len());
    assert_eq!(h.datasize as usize, body.len());
    assert_ne!(body, raw);
    assert!(body.len() < raw.len());
    assert_eq!(read_body(&h, &body), Ok(raw.clone()));
    let wrong = FrameHeader { raw_size: 10, ..h };
    assert_eq!(read_body(&wrong, &body), Err(FramingError::SizeMismatch));
}

#[test]
fn raw_body_written_as_is() {
    let raw = vec![1u8, 2, 3];
    let (h, body) = write_body(BlobType::OSMHeader, &raw, false).unwrap();
    assert_eq!(h, FrameHeader { blob_type: BlobType::OSMHeader, raw_size: 3, datasize: 3, codec: Codec::Raw });
    assert_eq!(body, raw);
}

#[test]
fn length_prefix_big_endian() {
    assert_eq!(write_length(0x01020304), vec![1, 2, 3, 4]);
    assert_eq!(read_length(&vec![9, 0, 0, 1, 2], 1), Ok(258));
    assert_eq!(read_length(&vec![0, 0, 1], 0), Err(FramingError::Truncated));
}

#[test]
fn close_discipline() {
    let mut w = BlockWriter::new(2);
    assert!(w.is_open());
    for i in 1..=3 {
        w.write_obj(StringOSMObj::Way(StringWay::new(i))).unwrap();
    }
    assert_eq!(w.blocks().len(), 1);
    assert_eq!(w.close(), Ok(()));
    assert!(!w.is_open());
    assert_eq!(w.write_obj(StringOSMObj::Way(StringWay::new(9))), Err(OSMWriteError::AlreadyClosed));
    assert_eq!(w.close(), Ok(()));
    let blocks = w.into_inner();
    assert_eq!(blocks.len(), 2);
    let mut ids = vec![];
    for b in &blocks {
        for o in decode_block(b).unwrap() {
            ids.push(o.id());
        }
    }
    assert_eq!(ids, vec![1, 2, 3]);
}

#[test]
fn writer_starts_block_when_kind_ranks_lower() {
    let mut w = BlockWriter::new(10);
    w.write_obj(StringOSMObj::Way(StringWay::new(1))).unwrap();
    w.write_obj(StringOSMObj::Way(StringWay::new(2))).unwrap();
    assert_eq!(w.blocks().len(), 0);
    let mut n = osmio::obj_types::StringNode::new(3);
    n.lat_lon = Some((0, 0));
    w.write_obj(StringOSMObj::Node(n)).unwrap();
    assert_eq!(w.blocks().len(), 1);
    assert_eq!(w.close(), Ok(()));
    assert_eq!(w.blocks().len(), 2);
}

#[test]
fn dropping_writer_keeps_flushed_blocks() {
    let mut w = BlockWriter::new(2);
    for i in 1..=3 {
        w.write_obj(StringOSMObj::Way(StringWay::new(i))).unwrap();
    }
    let blocks = w.into_inner();
    assert_eq!(blocks.len(), 1);
    assert_eq!(decode_block(&blocks[0]).unwrap().len(), 2);
}

#[test]
fn writer_has_no_headers() {
    let mut w = BlockWriter::new(1);
    assert_eq!(w.set_header("a", "b"), Err(OSMWriteError::FormatDoesntSupportHeaders));
}
