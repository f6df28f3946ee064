use p2p_transfer::compression::{compress, decompress, Compressor, Decompressor};
use p2p_transfer::error::Error;

#[test]
fn test_compress_decompress() {
    let data = b"Hello, World! This is a test of zstd compression. ".repeat(100);
    let compressed = compress(&data, 3).unwrap();
    assert!(compressed.len() < data.len());

    let decompressed = decompress(&compressed).unwrap();
    assert_eq!(data, decompressed.as_slice());
}

#[test]
fn test_compressor() {
    let compressor = Compressor::new(5);
    let data = b"Test data for compression";
    let compressed = compressor.compress(data).unwrap();

    let decompressor = Decompressor::new();
    let decompressed = decompressor.decompress(&compressed).unwrap();
    assert_eq!(data, decompressed.as_slice());
}

#[test]
fn decompressing_garbage_is_a_decompression_error() {
    let r = decompress(b"definitely not zstd");
    assert!(matches!(r, Err(Error::Decompression(_))));
}

#[test]
fn compression_changes_the_bytes() {
    let data = vec![0u8; 4096];
    let compressed = compress(&data, 3).unwrap();
    assert_ne!(compressed, data);
    assert_eq!(decompress(&compressed).unwrap(), data);
}

#[test]
fn compressor_agrees_with_compress_at_every_level() {
    let data = b"Hello, World! This is a test of zstd compression. ".repeat(100);
    for level in [-7, 0, 1, 3, 9, 22] {
        let c = Compressor::new(level).compress(&data).unwrap();
        assert_eq!(c, compress(&data, level).unwrap());
        assert_eq!(decompress(&c).unwrap(), data);
    }
    assert_eq!(decompress(&compress(&[], 3).unwrap()).unwrap(), Vec::<u8>::new());
}
