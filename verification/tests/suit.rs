use bootsim::cbor::Encoder;
use bootsim::suit::{
    gen_digest, RSA2048Signer, Signer, SuitError, SuitGenerator, SuitManifestGenerator, SUIT_MAGIC,
};

fn rsa_private_der() -> Vec<u8> {
    vec![
        0x30, 0x82, 0x04, 0xa4, 0x02, 0x01, 0x00, 0x02, 0x82, 0x01, 0x01, 0x00, 0xce, 0xa8, 0x04, 0x75,
        0x32, 0x4c, 0x1d, 0xc8, 0x34, 0x78, 0x27, 0x81, 0x8d, 0xa5, 0x8b, 0xac, 0x06, 0x9d, 0x34, 0x19,
        0xc6, 0x14, 0xa6, 0xea, 0x1a, 0xc6, 0xa3, 0xb5, 0x10, 0xdc, 0xd7, 0x2c, 0xc5, 0x16, 0x95, 0x49,
        0x05, 0xe9, 0xfe, 0xf9, 0x08, 0xd4, 0x5e, 0x13, 0x00, 0x6a, 0xdf, 0x27, 0xd4, 0x67, 0xa7, 0xd8,
        0x3c, 0x11, 0x1d, 0x1a, 0x5d, 0xf1, 0x5e, 0xf2, 0x93, 0x77, 0x1a, 0xef, 0xb9, 0x20, 0x03, 0x2a,
        0x5b, 0xb9, 0x89, 0xf8, 0xe4, 0xf5, 0xe1, 0xb0, 0x50, 0x93, 0xd3, 0xf1, 0x30, 0xf9, 0x84, 0xc0,
        0x7a, 0x77, 0x2a, 0x36, 0x83, 0xf4, 0xdc, 0x6f, 0xb2, 0x8a, 0x96, 0x81, 0x5b, 0x32, 0x12, 0x3c,
        0xcd, 0xd1, 0x39, 0x54, 0xf1, 0x9d, 0x5b, 0x8b, 0x24, 0xa1, 0x03, 0xe7, 0x71, 0xa3, 0x4c, 0x32,
        0x87, 0x55, 0xc6, 0x5e, 0xd6, 0x4e, 0x19, 0x24, 0xff, 0xd0, 0x4d, 0x30, 0xb2, 0x14, 0x2c, 0xc2,
        0x62, 0xf6, 0xe0, 0x04, 0x8f, 0xef, 0x6d, 0xbc, 0x65, 0x2f, 0x21, 0x47, 0x9e, 0xa1, 0xc4, 0xb1,
        0xd6, 0x6d, 0x28, 0xf4, 0xd4, 0x6e, 0xf7, 0x18, 0x5e, 0x39, 0x0c, 0xbf, 0xa2, 0xe0, 0x23, 0x80,
        0x58, 0x2f, 0x31, 0x88, 0xbb, 0x94, 0xeb, 0xbf, 0x05, 0xd3, 0x14, 0x87, 0xa0, 0x9a, 0xff, 0x01,
        0xfc, 0xbb, 0x4c, 0xd4, 0xbf, 0xd1, 0xf0, 0xa8, 0x33, 0xb3, 0x8c, 0x11, 0x81, 0x3c, 0x84, 0x36,
        0x0b, 0xb5, 0x3c, 0x7d, 0x44, 0x81, 0x03, 0x1c, 0x40, 0xba, 0xd8, 0x71, 0x3b, 0xb6, 0xb8, 0x35,
        0xcb, 0x08, 0x09, 0x8e, 0xd1, 0x5b, 0xa3, 0x1e, 0xe4, 0xba, 0x72, 0x8a, 0x8c, 0x8e, 0x10, 0xf7,
        0x29, 0x4e, 0x1b, 0x41, 0x63, 0xb7, 0xae, 0xe5, 0x72, 0x77, 0xbf, 0xd8, 0x81, 0xa6, 0xf9, 0xd4,
        0x3e, 0x02, 0xc6, 0x92, 0x5a, 0xa3, 0xa0, 0x43, 0xfb, 0x7f, 0xb7, 0x8d, 0x02, 0x03, 0x26, 0x04,
        0x45, 0x02, 0x82, 0x01, 0x00, 0x09, 0x97, 0x63, 0x4c, 0x47, 0x7c, 0x1a, 0x03, 0x9d, 0x44, 0xc8,
        0x10, 0xb2, 0xaa, 0xa3, 0xc7, 0x86, 0x2b, 0x0b, 0x88, 0xd3, 0x70, 0x82, 0x72, 0xe1, 0xe1, 0x5f,
        0x66, 0xfc, 0x93, 0x89, 0x70, 0x9f, 0x8a, 0x11, 0xf3, 0xea, 0x6a, 0x5a, 0xf7, 0xef, 0xfa, 0x2d,
        0x01, 0xc1, 0x89, 0xc5, 0x0f, 0x0d, 0x5b, 0xcb, 0xe3, 0xfa, 0x27, 0x2e, 0x56, 0xcf, 0xc4, 0xa4,
        0xe1, 0xd3, 0x88, 0xa9, 0xdc, 0xd6, 0x5d, 0xf8, 0x62, 0x89, 0x02, 0x55, 0x6c, 0x8b, 0x6b, 0xb6,
        0xa6, 0x41, 0x70, 0x9b, 0x5a, 0x35, 0xdd, 0x26, 0x22, 0xc7, 0x3d, 0x46, 0x40, 0xbf, 0xa1, 0x35,
        0x9d, 0x0e, 0x76, 0xe1, 0xf2, 0x19, 0xf8, 0xe3, 0x3e, 0xb9, 0xbd, 0x0b, 0x59, 0xec, 0x19, 0x8e,
        0xb2, 0xfc, 0xca, 0xae, 0x03, 0x46, 0xbd, 0x8b, 0x40, 0x1e, 0x12, 0xe3, 0xc6, 0x7c, 0xb6, 0x29,
        0x56, 0x9c, 0x18, 0x5a, 0x2e, 0x0f, 0x35, 0xa2, 0xf7, 0x41, 0x64, 0x4c, 0x1c, 0xca, 0x5e, 0xbb,
        0x13, 0x9d, 0x77, 0xa8, 0x9a, 0x29, 0x53, 0xfc, 0x5e, 0x30, 0x04, 0x8c, 0x0e, 0x61, 0x9f, 0x07,
        0xc8, 0xd2, 0x1d, 0x1e, 0x56, 0xb8, 0xaf, 0x07, 0x19, 0x3d, 0x0f, 0xdf, 0x3f, 0x49, 0xcd, 0x49,
        0xf2, 0xef, 0x31, 0x38, 0xb5, 0x13, 0x88, 0x62, 0xf1, 0x47, 0x0b, 0xd2, 0xd1, 0x6e, 0x34, 0xa2,
        0xb9, 0xe7, 0x77, 0x7a, 0x6c, 0x8c, 0x8d, 0x4c, 0xb9, 0x4b, 0x4e, 0x8b, 0x5d, 0x61, 0x6c, 0xd5,
        0x39, 0x37, 0x53, 0xe7, 0xb0, 0xf3, 0x1c, 0xc7, 0xda, 0x55, 0x9b, 0xa8, 0xe9, 0x8d, 0x88, 0x89,
        0x14, 0xe3, 0x34, 0x77, 0x3b, 0xaf, 0x49, 0x8a, 0xd8, 0x8d, 0x96, 0x31, 0xeb, 0x5f, 0xe3, 0x2e,
        0x53, 0xa4, 0x14, 0x5b, 0xf0, 0xba, 0x54, 0x8b, 0xf2, 0xb0, 0xa5, 0x0c, 0x63, 0xf6, 0x7b, 0x14,
        0xe3, 0x98, 0xa3, 0x4b, 0x0d, 0x02, 0x81, 0x81, 0x00, 0xf3, 0x64, 0xe1, 0x6e, 0xf1, 0x20, 0x17,
        0xec, 0x95, 0xb1, 0x92, 0x30, 0x8c, 0x01, 0xe0, 0x87, 0xce, 0xe6, 0x19, 0xab, 0x50, 0xa5, 0xd5,
        0x37, 0xcc, 0x01, 0x84, 0x1d, 0xc9, 0x2b, 0x30, 0xbc, 0xef, 0x0d, 0x9f, 0x2c, 0x6b, 0xbd, 0x5d,
        0xc1, 0x0b, 0xdf, 0x5b, 0x9f, 0x6c, 0x35, 0x4a, 0x4f, 0x9f, 0x21, 0x05, 0x20, 0xca, 0xa7, 0x2b,
        0x4f, 0x5c, 0x36, 0xb8, 0xd3, 0x3f, 0x10, 0x32, 0x4c, 0x55, 0x95, 0x61, 0x41, 0x89, 0x1e, 0x45,
        0xb8, 0x4b, 0x49, 0xf5, 0x9e, 0xa5, 0xbf, 0xac, 0x6f, 0xfa, 0x38, 0x90, 0x0a, 0xca, 0x50, 0x99,
        0xaf, 0xcd, 0x02, 0xf6, 0xa8, 0x25, 0x7c, 0x41, 0xce, 0x5b, 0xb2, 0xe4, 0x15, 0x38, 0x32, 0xb5,
        0xc2, 0x2f, 0x91, 0xeb, 0x38, 0x9f, 0xa2, 0x03, 0x5c, 0x3c, 0xf9, 0xb3, 0x37, 0x45, 0x31, 0xc4,
        0x83, 0xcb, 0x30, 0xce, 0xb0, 0x07, 0x25, 0x9b, 0x1d, 0x02, 0x81, 0x81, 0x00, 0xd9, 0x5c, 0x09,
        0x95, 0xfa, 0xbd, 0xfc, 0xbc, 0xcf, 0xe6, 0x3e, 0x0f, 0x32, 0x62, 0xf8, 0x06, 0x86, 0x9a, 0xb5,
        0x71, 0xe1, 0x79, 0x3e, 0x97, 0x23, 0x4c, 0xbb, 0x9b, 0xd4, 0xb6, 0x87, 0x2a, 0x76, 0x95, 0x38,
        0x99, 0x55, 0xcf, 0x6c, 0xe7, 0x24, 0x53, 0x45, 0xa5, 0xdf, 0x80, 0x21, 0xf7, 0xd9, 0x51, 0x95,
        0x63, 0xaf, 0xbc, 0x26, 0x67, 0xf5, 0x31, 0x1f, 0xad, 0x09, 0x3d, 0xe2, 0xc0, 0x2c, 0xd0, 0x69,
        0x10, 0x9b, 0x63, 0x0d, 0x68, 0xe3, 0xbf, 0x76, 0x7f, 0x8a, 0x78, 0x8a, 0x6a, 0xdd, 0x7a, 0xb1,
        0x99, 0xf2, 0xd8, 0xf6, 0xa4, 0x0b, 0x7c, 0x19, 0x10, 0xd9, 0xda, 0xb5, 0x2a, 0xc8, 0x0d, 0x0d,
        0x33, 0x3a, 0xac, 0xab, 0x32, 0x1a, 0x93, 0x09, 0xdc, 0x88, 0x4d, 0xdd, 0x4d, 0xb6, 0x37, 0xa0,
        0xc1, 0x11, 0x5a, 0xe3, 0xc0, 0x8e, 0xfa, 0x68, 0x3f, 0x99, 0xeb, 0x73, 0x31, 0x02, 0x81, 0x81,
        0x00, 0xd4, 0xf7, 0xef, 0x9f, 0x9b, 0xe9, 0x47, 0xba, 0x9d, 0x1b, 0x3b, 0xce, 0x59, 0xe5, 0x60,
        0x88, 0x39, 0xa1, 0xe4, 0x64, 0x55, 0x3e, 0x1b, 0x6d, 0x11, 0x3d, 0x0f, 0x63, 0x67, 0x58, 0xbb,
        0xb4, 0x73, 0xa8, 0x9f, 0x99, 0x49, 0x83, 0x6e, 0xad, 0x40, 0xb6, 0xf3, 0x14, 0xee, 0xe3, 0xac,
        0x22, 0x44, 0xd7, 0xb6, 0xf3, 0x79, 0xe8, 0x3f, 0x30, 0xe1, 0x77, 0x83, 0xad, 0x68, 0xd5, 0x08,
        0x68, 0x97, 0x88, 0x9c, 0x05, 0x1c, 0x26, 0xe1, 0x55, 0x8a, 0x4a, 0x22, 0x0b, 0xfc, 0x24, 0x29,
        0x95, 0x86, 0x06, 0x44, 0xb5, 0xd7, 0xa3, 0xef, 0x51, 0x3a, 0xc6, 0x12, 0xb9, 0xc6, 0xc0, 0xa2,
        0x02, 0x1b, 0xb6, 0xb9, 0xcd, 0xe7, 0xdb, 0xd2, 0x1f, 0xe5, 0x85, 0x87, 0x46, 0xc7, 0x95, 0x63,
        0xe9, 0xba, 0xb7, 0xd0, 0x6b, 0x43, 0xaa, 0xb4, 0x3a, 0x0a, 0x5c, 0xaf, 0xab, 0x45, 0x19, 0xa6,
        0x61, 0x02, 0x81, 0x80, 0x3d, 0xb2, 0x38, 0x6f, 0x17, 0x4f, 0x2e, 0xa3, 0xef, 0x4b, 0x6b, 0xd1,
        0x60, 0x17, 0x49, 0xce, 0x2d, 0x6a, 0xfa, 0x8b, 0xe3, 0x5f, 0x05, 0x11, 0x78, 0x62, 0x1f, 0x16,
        0xa2, 0x3a, 0xd3, 0x6e, 0xba, 0x03, 0xc0, 0x73, 0x13, 0x63, 0x89, 0x24, 0x19, 0x69, 0xe5, 0xb8,
        0x7e, 0xdb, 0x0f, 0xcb, 0xcf, 0x1a, 0x0b, 0xd6, 0xe1, 0xae, 0xe9, 0x7b, 0xae, 0x1f, 0x2d, 0x97,
        0xaa, 0xbe, 0x19, 0xb1, 0x7d, 0xbe, 0x7d, 0x94, 0x92, 0xcd, 0xb6, 0x8a, 0x08, 0x97, 0xf5, 0x72,
        0x35, 0x0e, 0x84, 0x6c, 0x66, 0x96, 0x60, 0xdc, 0x97, 0x8c, 0x50, 0x68, 0xda, 0x59, 0x85, 0x24,
        0xfc, 0xa8, 0xa1, 0x36, 0x35, 0x8d, 0x3e, 0x5f, 0x8f, 0x6a, 0xd5, 0xcf, 0x78, 0xd9, 0x08, 0x9c,
        0x93, 0xf4, 0x73, 0x18, 0x91, 0x62, 0xce, 0x0f, 0x8c, 0x49, 0x02, 0xa1, 0x99, 0x02, 0xb6, 0x33,
        0xb3, 0xe6, 0x92, 0x6d, 0x02, 0x81, 0x81, 0x00, 0xdd, 0xc9, 0x71, 0x18, 0x3d, 0xcf, 0x34, 0x50,
        0xc4, 0x3e, 0x06, 0xba, 0x2a, 0xf3, 0x23, 0x79, 0xee, 0xde, 0xb2, 0xd6, 0x78, 0x51, 0x3f, 0xb7,
        0x06, 0xb7, 0x5a, 0x00, 0x60, 0x98, 0x15, 0x40, 0x41, 0xf4, 0xb0, 0x9e, 0x6b, 0xe3, 0x85, 0xd4,
        0xb2, 0x5d, 0x80, 0xec, 0x24, 0x1c, 0x89, 0x9e, 0x4a, 0x98, 0x6a, 0x17, 0xb0, 0xa1, 0x21, 0xda,
        0xab, 0x91, 0xa1, 0xe4, 0xfc, 0x5a, 0x18, 0x02, 0xa7, 0x07, 0x4d, 0xf3, 0xfb, 0x3f, 0x76, 0x61,
        0xf0, 0xe1, 0xc9, 0x77, 0x99, 0xe3, 0x6d, 0x21, 0xde, 0x93, 0x7c, 0xc4, 0x20, 0x95, 0x85, 0xdb,
        0x30, 0xa5, 0x6a, 0xf0, 0xa2, 0x28, 0xe0, 0x01, 0x03, 0x6e, 0xd7, 0x92, 0x62, 0x5e, 0x53, 0x68,
        0xce, 0x10, 0x15, 0x74, 0xa2, 0xe9, 0x76, 0x7f, 0x07, 0x33, 0x89, 0x49, 0xf0, 0xaf, 0xdf, 0x35,
        0x8c, 0xec, 0xd1, 0x8c, 0x6d, 0x6f, 0x3f, 0x55,
    ]
}

fn rsa_public_der() -> Vec<u8> {
    vec![
        0x30, 0x82, 0x01, 0x0a, 0x02, 0x82, 0x01, 0x01, 0x00, 0xce, 0xa8, 0x04, 0x75, 0x32, 0x4c, 0x1d,
        0xc8, 0x34, 0x78, 0x27, 0x81, 0x8d, 0xa5, 0x8b, 0xac, 0x06, 0x9d, 0x34, 0x19, 0xc6, 0x14, 0xa6,
        0xea, 0x1a, 0xc6, 0xa3, 0xb5, 0x10, 0xdc, 0xd7, 0x2c, 0xc5, 0x16, 0x95, 0x49, 0x05, 0xe9, 0xfe,
        0xf9, 0x08, 0xd4, 0x5e, 0x13, 0x00, 0x6a, 0xdf, 0x27, 0xd4, 0x67, 0xa7, 0xd8, 0x3c, 0x11, 0x1d,
        0x1a, 0x5d, 0xf1, 0x5e, 0xf2, 0x93, 0x77, 0x1a, 0xef, 0xb9, 0x20, 0x03, 0x2a, 0x5b, 0xb9, 0x89,
        0xf8, 0xe4, 0xf5, 0xe1, 0xb0, 0x50, 0x93, 0xd3, 0xf1, 0x30, 0xf9, 0x84, 0xc0, 0x7a, 0x77, 0x2a,
        0x36, 0x83, 0xf4, 0xdc, 0x6f, 0xb2, 0x8a, 0x96, 0x81, 0x5b, 0x32, 0x12, 0x3c, 0xcd, 0xd1, 0x39,
        0x54, 0xf1, 0x9d, 0x5b, 0x8b, 0x24, 0xa1, 0x03, 0xe7, 0x71, 0xa3, 0x4c, 0x32, 0x87, 0x55, 0xc6,
        0x5e, 0xd6, 0x4e, 0x19, 0x24, 0xff, 0xd0, 0x4d, 0x30, 0xb2, 0x14, 0x2c, 0xc2, 0x62, 0xf6, 0xe0,
        0x04, 0x8f, 0xef, 0x6d, 0xbc, 0x65, 0x2f, 0x21, 0x47, 0x9e, 0xa1, 0xc4, 0xb1, 0xd6, 0x6d, 0x28,
        0xf4, 0xd4, 0x6e, 0xf7, 0x18, 0x5e, 0x39, 0x0c, 0xbf, 0xa2, 0xe0, 0x23, 0x80, 0x58, 0x2f, 0x31,
        0x88, 0xbb, 0x94, 0xeb, 0xbf, 0x05, 0xd3, 0x14, 0x87, 0xa0, 0x9a, 0xff, 0x01, 0xfc, 0xbb, 0x4c,
        0xd4, 0xbf, 0xd1, 0xf0, 0xa8, 0x33, 0xb3, 0x8c, 0x11, 0x81, 0x3c, 0x84, 0x36, 0x0b, 0xb5, 0x3c,
        0x7d, 0x44, 0x81, 0x03, 0x1c, 0x40, 0xba, 0xd8, 0x71, 0x3b, 0xb6, 0xb8, 0x35, 0xcb, 0x08, 0x09,
        0x8e, 0xd1, 0x5b, 0xa3, 0x1e, 0xe4, 0xba, 0x72, 0x8a, 0x8c, 0x8e, 0x10, 0xf7, 0x29, 0x4e, 0x1b,
        0x41, 0x63, 0xb7, 0xae, 0xe5, 0x72, 0x77, 0xbf, 0xd8, 0x81, 0xa6, 0xf9, 0xd4, 0x3e, 0x02, 0xc6,
        0x92, 0x5a, 0xa3, 0xa0, 0x43, 0xfb, 0x7f, 0xb7, 0x8d, 0x02, 0x03, 0x26, 0x04, 0x45,
    ]
}

fn to_pem(tag: &str, contents: &[u8]) -> Vec<u8> {
    pem::encode(&pem::Pem { tag: tag.to_string(), contents: contents.to_vec() }).into_bytes()
}

fn digest_of(data: &[u8]) -> Vec<u8> {
    let mut input = vec![0x83, 0x66];
    input.extend_from_slice(b"Digest");
    input.extend_from_slice(&[0x44, 0xa1, 0x01, 0x18, 0x29]);
    input.push(0x40 + data.len() as u8);
    input.extend_from_slice(data);
    ring::digest::digest(&ring::digest::SHA256, &input).as_ref().to_vec()
}

fn manifest_of(seq: u8, data: &[u8]) -> Vec<u8> {
    let mut expected = vec![0xa3, 0x01, 0x01, 0x02, seq, 0x03, 0x81, 0xa3, 0x01, 0x81, 0x41, 0x30];
    expected.extend_from_slice(&[0x02, data.len() as u8, 0x03]);
    expected.extend_from_slice(&[0x84, 0x44, 0xa1, 0x01, 0x18, 0x29, 0xa0, 0xf6, 0x58, 0x20]);
    expected.extend_from_slice(&digest_of(data));
    expected
}

#[test]
fn digest_is_an_array_of_four() {
    let mut enc = Encoder::new();
    gen_digest(&mut enc, &b"hello".to_vec()).unwrap();
    assert!(enc.is_complete());
    enc.assert_complete();
    let mut expected = vec![0x84, 0x44, 0xa1, 0x01, 0x18, 0x29, 0xa0, 0xf6, 0x58, 0x20];
    expected.extend_from_slice(&digest_of(b"hello"));
    assert_eq!(enc.into_inner(), expected);
}

#[test]
fn manifest_holds_sequence_size_and_digest() {
    let mut gen: SuitGenerator<RSA2048Signer> = SuitGenerator::new();
    assert!(!gen.has_payload());
    assert_eq!(gen.add_payload(&b"hello".to_vec()), Ok(()));
    assert!(gen.has_payload());
    assert_eq!(gen.set_sequence(7), Ok(()));
    assert_eq!(gen.gen_manifest(), Ok(manifest_of(7, b"hello")));
}

#[test]
fn the_payload_is_kept_as_it_was_added() {
    let mut gen: SuitGenerator<RSA2048Signer> = SuitGenerator::new();
    assert_eq!(gen.add_payload(&vec![1, 2, 3]), Ok(()));
    assert!(gen.has_payload());
    assert_eq!(gen.gen_manifest(), Ok(manifest_of(0, &[1, 2, 3])));
}

#[test]
fn generate_needs_a_key_id() {
    let mut gen: SuitGenerator<RSA2048Signer> = SuitGenerator::new();
    gen.add_payload(&vec![1]).unwrap();
    assert_eq!(gen.generate(), Err(SuitError::NoKeyId));
}

#[test]
fn envelope_without_signer_holds_null() {
    let mut gen: SuitGenerator<RSA2048Signer> = SuitGenerator::new();
    gen.add_payload(&b"hello".to_vec()).unwrap();
    gen.set_key_id(b"key".to_vec()).unwrap();
    let manifest = manifest_of(0, b"hello");
    let mut expected = vec![0xa2, 0x01, 0xd8, 0x62, 0x84, 0x43, 0xa1, 0x03, 0x00, 0xa0, 0xf6];
    expected.extend_from_slice(&[0x81, 0x83, 0x43, 0xa1, 0x01, 0x00, 0xa1, 0x04]);
    expected.extend_from_slice(&[0x43, b'k', b'e', b'y', 0xf6, 0x02, 0x58, manifest.len() as u8]);
    expected.extend_from_slice(&manifest);
    assert_eq!(gen.generate(), Ok(expected));
}

#[test]
fn signed_envelope_verifies() {
    let pem = to_pem("RSA PRIVATE KEY", &rsa_private_der());
    let signer = RSA2048Signer::from_bytes(&pem).unwrap();
    assert_eq!(signer.sig_type(), -37);
    let mut gen = SuitGenerator::new();
    gen.set_signer(signer).unwrap();
    gen.add_payload(&b"hello".to_vec()).unwrap();
    gen.set_sequence(3).unwrap();
    gen.set_key_id(b"key".to_vec()).unwrap();
    let manifest = manifest_of(3, b"hello");
    let envelope = gen.generate().unwrap();

    let mut front = vec![0xa2, 0x01, 0xd8, 0x62, 0x84, 0x43, 0xa1, 0x03, 0x00, 0xa0, 0xf6];
    front.extend_from_slice(&[0x81, 0x83, 0x44, 0xa1, 0x01, 0x38, 0x24, 0xa1, 0x04]);
    front.extend_from_slice(&[0x43, b'k', b'e', b'y', 0x59, 0x01, 0x00]);
    assert_eq!(&envelope[..front.len()], &front[..]);
    let signature = &envelope[front.len()..front.len() + 256];
    let mut back = vec![0x02, 0x58, manifest.len() as u8];
    back.extend_from_slice(&manifest);
    assert_eq!(&envelope[front.len() + 256..], &back[..]);

    let mut block = vec![0x85, 0x69];
    block.extend_from_slice(b"Signature");
    block.extend_from_slice(&[0x43, 0xa1, 0x03, 0x00, 0x44, 0xa1, 0x01, 0x38, 0x24, 0x40]);
    block.extend_from_slice(&[0x58, manifest.len() as u8]);
    block.extend_from_slice(&manifest);
    let key = ring::signature::UnparsedPublicKey::new(
        &ring::signature::RSA_PSS_2048_8192_SHA256,
        rsa_public_der(),
    );
    assert!(key.verify(&block, signature).is_ok());
}

#[test]
fn signer_wants_an_rsa_key_in_its_block() {
    assert!(RSA2048Signer::from_bytes(&b"no key".to_vec()).is_err());
    let pem = to_pem("PRIVATE KEY", &rsa_private_der());
    assert!(matches!(RSA2048Signer::from_bytes(&pem), Err(SuitError::BadKey)));
    let pem = to_pem("RSA PRIVATE KEY", &[1, 2, 3]);
    assert!(matches!(RSA2048Signer::from_bytes(&pem), Err(SuitError::BadKey)));
}

#[test]
fn suit_manifest_follows_magic_and_size() {
    let pem = to_pem("RSA PRIVATE KEY", &rsa_private_der());
    let mut gen = SuitManifestGenerator::new();
    assert_eq!(gen.get_magic(), SUIT_MAGIC);
    assert_eq!(gen.get_magic(), 0x96f3b83e);
    assert_eq!(gen.get_flags(), 0);
    gen.set_sequence(5);
    gen.add_bytes(&b"hel".to_vec());
    gen.add_bytes(&b"lo".to_vec());
    let tlv = gen.make_tlv(&pem, b"key".to_vec()).unwrap();
    assert_eq!(&tlv[..2], &[0x17, 0x69]);
    assert_eq!(tlv[2] as usize + 256 * tlv[3] as usize, tlv.len());
    let manifest = manifest_of(5, b"hello");
    assert_eq!(&tlv[tlv.len() - manifest.len()..], &manifest[..]);
    assert_eq!(tlv[4..7], [0xa2, 0x01, 0xd8]);
}

#[test]
fn suit_manifest_needs_a_key() {
    let mut gen = SuitManifestGenerator::new();
    gen.add_bytes(&vec![1, 2, 3]);
    assert_eq!(gen.make_tlv(&vec![], vec![1]), Err(SuitError::BadKey));
}

#[test]
fn only_a_signature_of_the_wanted_length_is_accepted() {
    use_accept(Some(vec![7u8; 256]), 256, Ok(vec![7u8; 256]));
    use_accept(Some(vec![7u8; 255]), 256, Err(SuitError::Signing));
    use_accept(Some(vec![]), 0, Ok(vec![]));
    use_accept(None, 256, Err(SuitError::Signing));
}

fn use_accept(outcome: Option<Vec<u8>>, want: usize, expected: Result<Vec<u8>, SuitError>) {
    assert_eq!(bootsim::suit::accept_signature(outcome, want), expected);
}
