use bootsim::caps::{CapSet, Caps};
use bootsim::header::ImageVersion;
use bootsim::tlv::{
    ecies_seal, judge_signature, read_pem, sign_ecdsa, Attempt, KeyStore, ManifestGen, TlvError,
    TlvGen, TlvKinds, TlvParts, IMAGE_MAGIC,
};

fn rsa_private_der() -> Vec<u8> {
    vec![
        0x30, 0x82, 0x04, 0xa4, 0x02, 0x01, 0x00, 0x02, 0x82, 0x01, 0x01, 0x00, 0xce, 0xa8, 0x04, 0x75,
        0x32, 0x4c, 0x1d, 0xc8, 0x34, 0x78, 0x27, 0x81, 0x8d, 0xa5, 0x8b, 0xac, 0x06, 0x9d, 0x34, 0x19,
        0xc6, 0x14, 0xa6, 0xea, 0x1a, 0xc6, 0xa3, 0xb5, 0x10, 0xdc, 0xd7, 0x2c, 0xc5, 0x16, 0x95, 0x49,
        0x05, 0xe9, 0xfe, 0xf9, 0x08, 0xd4, 0x5e, 0x13, 0x00, 0x6a, 0xdf, 0x27, 0xd4, 0x67, 0xa7, 0xd8,
        0x3c, 0x11, 0x1d, 0x1a, 0x5d, 0xf1, 0x5e, 0xf2, 0x93, 0x77, 0x1a, 0xef, 0xb9, 0x20, 0x03, 0x2a,
        0x5b, 0xb9, 0x89, 0xf8, 0xe4, 0xf5, 0xe1, 0xb0, 0x50, 0x93, 0xd3, 0xf1, 0x30, 0xf9, 0x84, 0xc0,
        0x7a, 0x77, 0x2a, 0x36, 0x83, 0xf4, 0xdc, 0x6f, 0xb2, 0x8a, 0x96, 0x81, 0x5b, 0x32, 0x12, 0x3c,
        0xcd, 0xd1, 0x39, 0x54, 0xf1, 0x9d, 0x5b, 0x8b, 0x24, 0xa1, 0x03, 0xe7, 0x71, 0xa3, 0x4c, 0x32,
        0x87, 0x55, 0xc6, 0x5e, 0xd6, 0x4e, 0x19, 0x24, 0xff, 0xd0, 0x4d, 0x30, 0xb2, 0x14, 0x2c, 0xc2,
        0x62, 0xf6, 0xe0, 0x04, 0x8f, 0xef, 0x6d, 0xbc, 0x65, 0x2f, 0x21, 0x47, 0x9e, 0xa1, 0xc4, 0xb1,
        0xd6, 0x6d, 0x28, 0xf4, 0xd4, 0x6e, 0xf7, 0x18, 0x5e, 0x39, 0x0c, 0xbf, 0xa2, 0xe0, 0x23, 0x80,
        0x58, 0x2f, 0x31, 0x88, 0xbb, 0x94, 0xeb, 0xbf, 0x05, 0xd3, 0x14, 0x87, 0xa0, 0x9a, 0xff, 0x01,
        0xfc, 0xbb, 0x4c, 0xd4, 0xbf, 0xd1, 0xf0, 0xa8, 0x33, 0xb3, 0x8c, 0x11, 0x81, 0x3c, 0x84, 0x36,
        0x0b, 0xb5, 0x3c, 0x7d, 0x44, 0x81, 0x03, 0x1c, 0x40, 0xba, 0xd8, 0x71, 0x3b, 0xb6, 0xb8, 0x35,
        0xcb, 0x08, 0x09, 0x8e, 0xd1, 0x5b, 0xa3, 0x1e, 0xe4, 0xba, 0x72, 0x8a, 0x8c, 0x8e, 0x10, 0xf7,
        0x29, 0x4e, 0x1b, 0x41, 0x63, 0xb7, 0xae, 0xe5, 0x72, 0x77, 0xbf, 0xd8, 0x81, 0xa6, 0xf9, 0xd4,
        0x3e, 0x02, 0xc6, 0x92, 0x5a, 0xa3, 0xa0, 0x43, 0xfb, 0x7f, 0xb7, 0x8d, 0x02, 0x03, 0x26, 0x04,
        0x45, 0x02, 0x82, 0x01, 0x00, 0x09, 0x97, 0x63, 0x4c, 0x47, 0x7c, 0x1a, 0x03, 0x9d, 0x44, 0xc8,
        0x10, 0xb2, 0xaa, 0xa3, 0xc7, 0x86, 0x2b, 0x0b, 0x88, 0xd3, 0x70, 0x82, 0x72, 0xe1, 0xe1, 0x5f,
        0x66, 0xfc, 0x93, 0x89, 0x70, 0x9f, 0x8a, 0x11, 0xf3, 0xea, 0x6a, 0x5a, 0xf7, 0xef, 0xfa, 0x2d,
        0x01, 0xc1, 0x89, 0xc5, 0x0f, 0x0d, 0x5b, 0xcb, 0xe3, 0xfa, 0x27, 0x2e, 0x56, 0xcf, 0xc4, 0xa4,
        0xe1, 0xd3, 0x88, 0xa9, 0xdc, 0xd6, 0x5d, 0xf8, 0x62, 0x89, 0x02, 0x55, 0x6c, 0x8b, 0x6b, 0xb6,
        0xa6, 0x41, 0x70, 0x9b, 0x5a, 0x35, 0xdd, 0x26, 0x22, 0xc7, 0x3d, 0x46, 0x40, 0xbf, 0xa1, 0x35,
        0x9d, 0x0e, 0x76, 0xe1, 0xf2, 0x19, 0xf8, 0xe3, 0x3e, 0xb9, 0xbd, 0x0b, 0x59, 0xec, 0x19, 0x8e,
        0xb2, 0xfc, 0xca, 0xae, 0x03, 0x46, 0xbd, 0x8b, 0x40, 0x1e, 0x12, 0xe3, 0xc6, 0x7c, 0xb6, 0x29,
        0x56, 0x9c, 0x18, 0x5a, 0x2e, 0x0f, 0x35, 0xa2, 0xf7, 0x41, 0x64, 0x4c, 0x1c, 0xca, 0x5e, 0xbb,
        0x13, 0x9d, 0x77, 0xa8, 0x9a, 0x29, 0x53, 0xfc, 0x5e, 0x30, 0x04, 0x8c, 0x0e, 0x61, 0x9f, 0x07,
        0xc8, 0xd2, 0x1d, 0x1e, 0x56, 0xb8, 0xaf, 0x07, 0x19, 0x3d, 0x0f, 0xdf, 0x3f, 0x49, 0xcd, 0x49,
        0xf2, 0xef, 0x31, 0x38, 0xb5, 0x13, 0x88, 0x62, 0xf1, 0x47, 0x0b, 0xd2, 0xd1, 0x6e, 0x34, 0xa2,
        0xb9, 0xe7, 0x77, 0x7a, 0x6c, 0x8c, 0x8d, 0x4c, 0xb9, 0x4b, 0x4e, 0x8b, 0x5d, 0x61, 0x6c, 0xd5,
        0x39, 0x37, 0x53, 0xe7, 0xb0, 0xf3, 0x1c, 0xc7, 0xda, 0x55, 0x9b, 0xa8, 0xe9, 0x8d, 0x88, 0x89,
        0x14, 0xe3, 0x34, 0x77, 0x3b, 0xaf, 0x49, 0x8a, 0xd8, 0x8d, 0x96, 0x31, 0xeb, 0x5f, 0xe3, 0x2e,
        0x53, 0xa4, 0x14, 0x5b, 0xf0, 0xba, 0x54, 0x8b, 0xf2, 0xb0, 0xa5, 0x0c, 0x63, 0xf6, 0x7b, 0x14,
        0xe3, 0x98, 0xa3, 0x4b, 0x0d, 0x02, 0x81, 0x81, 0x00, 0xf3, 0x64, 0xe1, 0x6e, 0xf1, 0x20, 0x17,
        0xec, 0x95, 0xb1, 0x92, 0x30, 0x8c, 0x01, 0xe0, 0x87, 0xce, 0xe6, 0x19, 0xab, 0x50, 0xa5, 0xd5,
        0x37, 0xcc, 0x01, 0x84, 0x1d, 0xc9, 0x2b, 0x30, 0xbc, 0xef, 0x0d, 0x9f, 0x2c, 0x6b, 0xbd, 0x5d,
        0xc1, 0x0b, 0xdf, 0x5b, 0x9f, 0x6c, 0x35, 0x4a, 0x4f, 0x9f, 0x21, 0x05, 0x20, 0xca, 0xa7, 0x2b,
        0x4f, 0x5c, 0x36, 0xb8, 0xd3, 0x3f, 0x10, 0x32, 0x4c, 0x55, 0x95, 0x61, 0x41, 0x89, 0x1e, 0x45,
        0xb8, 0x4b, 0x49, 0xf5, 0x9e, 0xa5, 0xbf, 0xac, 0x6f, 0xfa, 0x38, 0x90, 0x0a, 0xca, 0x50, 0x99,
        0xaf, 0xcd, 0x02, 0xf6, 0xa8, 0x25, 0x7c, 0x41, 0xce, 0x5b, 0xb2, 0xe4, 0x15, 0x38, 0x32, 0xb5,
        0xc2, 0x2f, 0x91, 0xeb, 0x38, 0x9f, 0xa2, 0x03, 0x5c, 0x3c, 0xf9, 0xb3, 0x37, 0x45, 0x31, 0xc4,
        0x83, 0xcb, 0x30, 0xce, 0xb0, 0x07, 0x25, 0x9b, 0x1d, 0x02, 0x81, 0x81, 0x00, 0xd9, 0x5c, 0x09,
        0x95, 0xfa, 0xbd, 0xfc, 0xbc, 0xcf, 0xe6, 0x3e, 0x0f, 0x32, 0x62, 0xf8, 0x06, 0x86, 0x9a, 0xb5,
        0x71, 0xe1, 0x79, 0x3e, 0x97, 0x23, 0x4c, 0xbb, 0x9b, 0xd4, 0xb6, 0x87, 0x2a, 0x76, 0x95, 0x38,
        0x99, 0x55, 0xcf, 0x6c, 0xe7, 0x24, 0x53, 0x45, 0xa5, 0xdf, 0x80, 0x21, 0xf7, 0xd9, 0x51, 0x95,
        0x63, 0xaf, 0xbc, 0x26, 0x67, 0xf5, 0x31, 0x1f, 0xad, 0x09, 0x3d, 0xe2, 0xc0, 0x2c, 0xd0, 0x69,
        0x10, 0x9b, 0x63, 0x0d, 0x68, 0xe3, 0xbf, 0x76, 0x7f, 0x8a, 0x78, 0x8a, 0x6a, 0xdd, 0x7a, 0xb1,
        0x99, 0xf2, 0xd8, 0xf6, 0xa4, 0x0b, 0x7c, 0x19, 0x10, 0xd9, 0xda, 0xb5, 0x2a, 0xc8, 0x0d, 0x0d,
        0x33, 0x3a, 0xac, 0xab, 0x32, 0x1a, 0x93, 0x09, 0xdc, 0x88, 0x4d, 0xdd, 0x4d, 0xb6, 0x37, 0xa0,
        0xc1, 0x11, 0x5a, 0xe3, 0xc0, 0x8e, 0xfa, 0x68, 0x3f, 0x99, 0xeb, 0x73, 0x31, 0x02, 0x81, 0x81,
        0x00, 0xd4, 0xf7, 0xef, 0x9f, 0x9b, 0xe9, 0x47, 0xba, 0x9d, 0x1b, 0x3b, 0xce, 0x59, 0xe5, 0x60,
        0x88, 0x39, 0xa1, 0xe4, 0x64, 0x55, 0x3e, 0x1b, 0x6d, 0x11, 0x3d, 0x0f, 0x63, 0x67, 0x58, 0xbb,
        0xb4, 0x73, 0xa8, 0x9f, 0x99, 0x49, 0x83, 0x6e, 0xad, 0x40, 0xb6, 0xf3, 0x14, 0xee, 0xe3, 0xac,
        0x22, 0x44, 0xd7, 0xb6, 0xf3, 0x79, 0xe8, 0x3f, 0x30, 0xe1, 0x77, 0x83, 0xad, 0x68, 0xd5, 0x08,
        0x68, 0x97, 0x88, 0x9c, 0x05, 0x1c, 0x26, 0xe1, 0x55, 0x8a, 0x4a, 0x22, 0x0b, 0xfc, 0x24, 0x29,
        0x95, 0x86, 0x06, 0x44, 0xb5, 0xd7, 0xa3, 0xef, 0x51, 0x3a, 0xc6, 0x12, 0xb9, 0xc6, 0xc0, 0xa2,
        0x02, 0x1b, 0xb6, 0xb9, 0xcd, 0xe7, 0xdb, 0xd2, 0x1f, 0xe5, 0x85, 0x87, 0x46, 0xc7, 0x95, 0x63,
        0xe9, 0xba, 0xb7, 0xd0, 0x6b, 0x43, 0xaa, 0xb4, 0x3a, 0x0a, 0x5c, 0xaf, 0xab, 0x45, 0x19, 0xa6,
        0x61, 0x02, 0x81, 0x80, 0x3d, 0xb2, 0x38, 0x6f, 0x17, 0x4f, 0x2e, 0xa3, 0xef, 0x4b, 0x6b, 0xd1,
        0x60, 0x17, 0x49, 0xce, 0x2d, 0x6a, 0xfa, 0x8b, 0xe3, 0x5f, 0x05, 0x11, 0x78, 0x62, 0x1f, 0x16,
        0xa2, 0x3a, 0xd3, 0x6e, 0xba, 0x03, 0xc0, 0x73, 0x13, 0x63, 0x89, 0x24, 0x19, 0x69, 0xe5, 0xb8,
        0x7e, 0xdb, 0x0f, 0xcb, 0xcf, 0x1a, 0x0b, 0xd6, 0xe1, 0xae, 0xe9, 0x7b, 0xae, 0x1f, 0x2d, 0x97,
        0xaa, 0xbe, 0x19, 0xb1, 0x7d, 0xbe, 0x7d, 0x94, 0x92, 0xcd, 0xb6, 0x8a, 0x08, 0x97, 0xf5, 0x72,
        0x35, 0x0e, 0x84, 0x6c, 0x66, 0x96, 0x60, 0xdc, 0x97, 0x8c, 0x50, 0x68, 0xda, 0x59, 0x85, 0x24,
        0xfc, 0xa8, 0xa1, 0x36, 0x35, 0x8d, 0x3e, 0x5f, 0x8f, 0x6a, 0xd5, 0xcf, 0x78, 0xd9, 0x08, 0x9c,
        0x93, 0xf4, 0x73, 0x18, 0x91, 0x62, 0xce, 0x0f, 0x8c, 0x49, 0x02, 0xa1, 0x99, 0x02, 0xb6, 0x33,
        0xb3, 0xe6, 0x92, 0x6d, 0x02, 0x81, 0x81, 0x00, 0xdd, 0xc9, 0x71, 0x18, 0x3d, 0xcf, 0x34, 0x50,
        0xc4, 0x3e, 0x06, 0xba, 0x2a, 0xf3, 0x23, 0x79, 0xee, 0xde, 0xb2, 0xd6, 0x78, 0x51, 0x3f, 0xb7,
        0x06, 0xb7, 0x5a, 0x00, 0x60, 0x98, 0x15, 0x40, 0x41, 0xf4, 0xb0, 0x9e, 0x6b, 0xe3, 0x85, 0xd4,
        0xb2, 0x5d, 0x80, 0xec, 0x24, 0x1c, 0x89, 0x9e, 0x4a, 0x98, 0x6a, 0x17, 0xb0, 0xa1, 0x21, 0xda,
        0xab, 0x91, 0xa1, 0xe4, 0xfc, 0x5a, 0x18, 0x02, 0xa7, 0x07, 0x4d, 0xf3, 0xfb, 0x3f, 0x76, 0x61,
        0xf0, 0xe1, 0xc9, 0x77, 0x99, 0xe3, 0x6d, 0x21, 0xde, 0x93, 0x7c, 0xc4, 0x20, 0x95, 0x85, 0xdb,
        0x30, 0xa5, 0x6a, 0xf0, 0xa2, 0x28, 0xe0, 0x01, 0x03, 0x6e, 0xd7, 0x92, 0x62, 0x5e, 0x53, 0x68,
        0xce, 0x10, 0x15, 0x74, 0xa2, 0xe9, 0x76, 0x7f, 0x07, 0x33, 0x89, 0x49, 0xf0, 0xaf, 0xdf, 0x35,
        0x8c, 0xec, 0xd1, 0x8c, 0x6d, 0x6f, 0x3f, 0x55,
    ]
}

fn rsa_public_der() -> Vec<u8> {
    vec![
        0x30, 0x82, 0x01, 0x0a, 0x02, 0x82, 0x01, 0x01, 0x00, 0xce, 0xa8, 0x04, 0x75, 0x32, 0x4c, 0x1d,
        0xc8, 0x34, 0x78, 0x27, 0x81, 0x8d, 0xa5, 0x8b, 0xac, 0x06, 0x9d, 0x34, 0x19, 0xc6, 0x14, 0xa6,
        0xea, 0x1a, 0xc6, 0xa3, 0xb5, 0x10, 0xdc, 0xd7, 0x2c, 0xc5, 0x16, 0x95, 0x49, 0x05, 0xe9, 0xfe,
        0xf9, 0x08, 0xd4, 0x5e, 0x13, 0x00, 0x6a, 0xdf, 0x27, 0xd4, 0x67, 0xa7, 0xd8, 0x3c, 0x11, 0x1d,
        0x1a, 0x5d, 0xf1, 0x5e, 0xf2, 0x93, 0x77, 0x1a, 0xef, 0xb9, 0x20, 0x03, 0x2a, 0x5b, 0xb9, 0x89,
        0xf8, 0xe4, 0xf5, 0xe1, 0xb0, 0x50, 0x93, 0xd3, 0xf1, 0x30, 0xf9, 0x84, 0xc0, 0x7a, 0x77, 0x2a,
        0x36, 0x83, 0xf4, 0xdc, 0x6f, 0xb2, 0x8a, 0x96, 0x81, 0x5b, 0x32, 0x12, 0x3c, 0xcd, 0xd1, 0x39,
        0x54, 0xf1, 0x9d, 0x5b, 0x8b, 0x24, 0xa1, 0x03, 0xe7, 0x71, 0xa3, 0x4c, 0x32, 0x87, 0x55, 0xc6,
        0x5e, 0xd6, 0x4e, 0x19, 0x24, 0xff, 0xd0, 0x4d, 0x30, 0xb2, 0x14, 0x2c, 0xc2, 0x62, 0xf6, 0xe0,
        0x04, 0x8f, 0xef, 0x6d, 0xbc, 0x65, 0x2f, 0x21, 0x47, 0x9e, 0xa1, 0xc4, 0xb1, 0xd6, 0x6d, 0x28,
        0xf4, 0xd4, 0x6e, 0xf7, 0x18, 0x5e, 0x39, 0x0c, 0xbf, 0xa2, 0xe0, 0x23, 0x80, 0x58, 0x2f, 0x31,
        0x88, 0xbb, 0x94, 0xeb, 0xbf, 0x05, 0xd3, 0x14, 0x87, 0xa0, 0x9a, 0xff, 0x01, 0xfc, 0xbb, 0x4c,
        0xd4, 0xbf, 0xd1, 0xf0, 0xa8, 0x33, 0xb3, 0x8c, 0x11, 0x81, 0x3c, 0x84, 0x36, 0x0b, 0xb5, 0x3c,
        0x7d, 0x44, 0x81, 0x03, 0x1c, 0x40, 0xba, 0xd8, 0x71, 0x3b, 0xb6, 0xb8, 0x35, 0xcb, 0x08, 0x09,
        0x8e, 0xd1, 0x5b, 0xa3, 0x1e, 0xe4, 0xba, 0x72, 0x8a, 0x8c, 0x8e, 0x10, 0xf7, 0x29, 0x4e, 0x1b,
        0x41, 0x63, 0xb7, 0xae, 0xe5, 0x72, 0x77, 0xbf, 0xd8, 0x81, 0xa6, 0xf9, 0xd4, 0x3e, 0x02, 0xc6,
        0x92, 0x5a, 0xa3, 0xa0, 0x43, 0xfb, 0x7f, 0xb7, 0x8d, 0x02, 0x03, 0x26, 0x04, 0x45,
    ]
}

fn p256_public_point() -> Vec<u8> {
    vec![
        0x04, 0xfc, 0x11, 0x66, 0x98, 0xa3, 0xe3, 0x23, 0x65, 0x50, 0xc4, 0xc9, 0xef, 0xa9, 0xbd, 0x4d,
        0x06, 0x19, 0x60, 0x2a, 0x65, 0xd2, 0x93, 0x0e, 0x91, 0x50, 0xab, 0x33, 0xe8, 0x4d, 0xbc, 0x83,
        0xf8, 0xa6, 0xa6, 0xb9, 0x93, 0x3f, 0x35, 0xab, 0x59, 0x24, 0x5e, 0x5b, 0x5a, 0x7a, 0xf5, 0xdc,
        0xa7, 0x6b, 0x33, 0xcb, 0xe7, 0xae, 0xee, 0x59, 0x81, 0xb3, 0xca, 0x35, 0x0b, 0xeb, 0xf5, 0x2e,
        0xcd,
    ]
}

fn sha256_of_payload() -> Vec<u8> {
    vec![
        0x5f, 0xaa, 0x4e, 0xec, 0x36, 0x11, 0x55, 0x68, 0x12, 0xc2, 0xd7, 0x4b, 0x43, 0x7c, 0x8c, 0x49,
        0xad, 0xd3, 0xf9, 0x10, 0xf1, 0x00, 0x63, 0xd8, 0x01, 0x44, 0x1f, 0x7d, 0x75, 0xcd, 0x5e, 0x3b,
    ]
}

fn sha256_of_flipped_payload() -> Vec<u8> {
    vec![
        0x80, 0xb8, 0x8f, 0x86, 0x57, 0x5d, 0x84, 0x9a, 0x9e, 0xad, 0x21, 0x51, 0x15, 0x14, 0xb9, 0x30,
        0xf2, 0xce, 0xff, 0xa6, 0x99, 0x33, 0x40, 0xf2, 0x2b, 0xa5, 0x66, 0x69, 0x38, 0xea, 0x1f, 0x7d,
    ]
}

fn sha256_of_payload_and_protected() -> Vec<u8> {
    vec![
        0x5d, 0xb0, 0xfc, 0xb9, 0x8d, 0x90, 0x52, 0x8c, 0xf1, 0x1d, 0x5d, 0x93, 0xab, 0x85, 0x5b, 0xad,
        0xa1, 0x95, 0x6a, 0xb5, 0x73, 0x84, 0xda, 0xd2, 0xa1, 0x67, 0x77, 0xd9, 0x68, 0x18, 0x00, 0xf6,
    ]
}

fn payload() -> Vec<u8> {
    (0u8..40).collect()
}

fn no_keys() -> KeyStore {
    KeyStore {
        rsa2048_public: vec![],
        rsa2048_private_pem: vec![],
        rsa3072_public: vec![],
        rsa3072_private_pem: vec![],
        ecdsa_p256_public: vec![],
        ecdsa_p256_private_pem: vec![],
        ecdsa_p384_public: vec![],
        ecdsa_p384_private_pem: vec![],
        ed25519_public: vec![],
        ed25519_private_pem: vec![],
        enc_ec256_public_pem: vec![],
        enc_x25519_public_pem: vec![],
    }
}

fn to_pem(tag: &str, contents: &[u8]) -> Vec<u8> {
    pem::encode(&pem::Pem { tag: tag.to_string(), contents: contents.to_vec() }).into_bytes()
}

/// Splits a manifest area into its entries: (kind, value).
fn entries(area: &[u8]) -> Vec<(u16, Vec<u8>)> {
    let mut res = vec![];
    let mut at = 4;
    while at < area.len() {
        let kind = u16::from_le_bytes([area[at], area[at + 1]]);
        let len = u16::from_le_bytes([area[at + 2], area[at + 3]]) as usize;
        res.push((kind, area[at + 4..at + 4 + len].to_vec()));
        at += 4 + len;
    }
    assert_eq!(at, area.len());
    res
}

#[test]
fn hash_only_manifest_is_exact() {
    let mut gen = TlvGen::new_hash_only();
    assert_eq!(gen.estimate_size(), 4 + 4 + 32);
    assert_eq!(gen.protect_size(), 0);
    assert_eq!(gen.get_magic(), 0x96f3b83d);
    assert_eq!(IMAGE_MAGIC, 0x96f3b83d);
    assert_eq!(gen.get_flags(), 0);
    gen.add_bytes(&payload());
    assert_eq!(gen.estimate_size(), 40);
    let tlv = gen.make_tlv(&no_keys()).unwrap();
    let mut want = vec![0x07, 0x69, 40, 0, 0x10, 0, 32, 0];
    want.extend_from_slice(&sha256_of_payload());
    assert_eq!(tlv, want);
}

#[test]
fn corrupted_hash_only_manifest_hashes_something_else() {
    let mut gen = TlvGen::new_hash_only();
    gen.add_bytes(&payload());
    gen.corrupt_sig();
    let tlv = gen.make_tlv(&no_keys()).unwrap();
    assert_eq!(tlv.len(), 40);
    assert_eq!(&tlv[8..], &sha256_of_flipped_payload()[..]);
}

#[test]
fn corrupting_nothing_is_refused() {
    let mut gen = TlvGen::new_hash_only();
    gen.corrupt_sig();
    assert_eq!(gen.make_tlv(&no_keys()), Err(TlvError::EmptyPayload));
}

#[test]
fn dependencies_go_into_the_protected_area() {
    let mut gen = TlvGen::new_hash_only();
    gen.add_dependency(1, &ImageVersion { major: 21, minor: 0, revision: 1, build_num: 1 });
    assert_eq!(gen.protect_size(), 20);
    assert_eq!(gen.estimate_size(), 60);
    gen.add_bytes(&payload());
    let tlv = gen.make_tlv(&no_keys()).unwrap();
    let mut want = vec![0x08, 0x69, 20, 0, 0x40, 0, 12, 0, 1, 0, 0, 0, 21, 0, 1, 0, 1, 0, 0, 0];
    want.extend_from_slice(&[0x07, 0x69, 40, 0, 0x10, 0, 32, 0]);
    want.extend_from_slice(&sha256_of_payload_and_protected());
    assert_eq!(tlv, want);
}

#[test]
fn security_counter_needs_the_capability() {
    let mut gen = TlvGen::new_sec_cnt();
    gen.set_security_counter(Some(7));
    // Without rollback protection in hardware the counter is left out.
    assert_eq!(gen.protect_size(), 0);
    assert_eq!(gen.estimate_size(), 40);
    gen.set_caps(CapSet::new(0, 1).with(Caps::HwRollbackProtection));
    assert_eq!(gen.protect_size(), 12);
    assert_eq!(gen.estimate_size(), 52);
    gen.add_bytes(&payload());
    let tlv = gen.make_tlv(&no_keys()).unwrap();
    assert_eq!(tlv.len(), 52);
    assert_eq!(&tlv[..12], &[0x08, 0x69, 12, 0, 0x50, 0, 4, 0, 7, 0, 0, 0]);
    assert_eq!(&tlv[12..16], &[0x07, 0x69, 40, 0]);
}

#[test]
fn ram_load_flag_follows_the_capability() {
    let mut gen = TlvGen::new_enc_kw(256);
    assert_eq!(gen.get_flags(), 0x08);
    gen.set_caps(CapSet::new(0, 1).with(Caps::RamLoad));
    assert_eq!(gen.get_flags(), 0x28);
    gen.set_ignore_ram_load_flag();
    assert_eq!(gen.get_flags(), 0x08);
    assert_eq!(TlvGen::new_enc_kw(128).get_flags(), 0x04);
    assert_eq!(TlvGen::new_enc_kw(17).get_flags(), 0x04);
}

#[test]
fn constructors_hold_their_kinds() {
    let all = [
        TlvKinds::KEYHASH,
        TlvKinds::SHA256,
        TlvKinds::SHA384,
        TlvKinds::RSA2048,
        TlvKinds::ECDSASIG,
        TlvKinds::RSA3072,
        TlvKinds::ED25519,
        TlvKinds::ENCRSA2048,
        TlvKinds::ENCKW,
        TlvKinds::ENCEC256,
        TlvKinds::ENCX25519,
        TlvKinds::DEPENDENCY,
        TlvKinds::SECCNT,
    ];
    let kinds = |g: &TlvGen| -> Vec<TlvKinds> { all.iter().cloned().filter(|k| g.has(*k)).collect() };
    assert_eq!(kinds(&TlvGen::new_hash_only()), [TlvKinds::SHA256]);
    assert_eq!(kinds(&TlvGen::new_rsa_pss()), [TlvKinds::SHA256, TlvKinds::RSA2048]);
    assert_eq!(kinds(&TlvGen::new_rsa3072_pss()), [TlvKinds::SHA256, TlvKinds::RSA3072]);
    assert_eq!(kinds(&TlvGen::new_ecdsa()), [TlvKinds::SHA256, TlvKinds::ECDSASIG]);
    assert_eq!(kinds(&TlvGen::new_ecdsa_p384()), [TlvKinds::SHA384, TlvKinds::ECDSASIG]);
    assert_eq!(kinds(&TlvGen::new_ed25519()), [TlvKinds::SHA256, TlvKinds::ED25519]);
    assert_eq!(kinds(&TlvGen::new_enc_rsa(128)), [TlvKinds::SHA256, TlvKinds::ENCRSA2048]);
    assert_eq!(kinds(&TlvGen::new_sig_enc_rsa(128)), [TlvKinds::SHA256, TlvKinds::RSA2048, TlvKinds::ENCRSA2048]);
    assert_eq!(kinds(&TlvGen::new_enc_kw(128)), [TlvKinds::SHA256, TlvKinds::ENCKW]);
    assert_eq!(kinds(&TlvGen::new_rsa_kw(128)), [TlvKinds::SHA256, TlvKinds::RSA2048, TlvKinds::ENCKW]);
    assert_eq!(kinds(&TlvGen::new_ecdsa_kw(128)), [TlvKinds::SHA256, TlvKinds::ECDSASIG, TlvKinds::ENCKW]);
    assert_eq!(kinds(&TlvGen::new_ecies_p256(128)), [TlvKinds::SHA256, TlvKinds::ENCEC256]);
    assert_eq!(kinds(&TlvGen::new_ecdsa_ecies_p256(128)), [TlvKinds::SHA256, TlvKinds::ECDSASIG, TlvKinds::ENCEC256]);
    assert_eq!(kinds(&TlvGen::new_ecies_x25519(128)), [TlvKinds::SHA256, TlvKinds::ENCX25519]);
    assert_eq!(kinds(&TlvGen::new_ed25519_ecies_x25519(128)), [TlvKinds::SHA256, TlvKinds::ED25519, TlvKinds::ENCX25519]);
    assert_eq!(kinds(&TlvGen::new_sec_cnt()), [TlvKinds::SHA256, TlvKinds::SECCNT]);
    assert_eq!(TlvKinds::ECDSASIG.code(), 0x22);
    assert_eq!(TlvKinds::SECCNT.code(), 0x50);
}

#[test]
fn estimates_by_kind() {
    assert_eq!(TlvGen::new_rsa_pss().estimate_size(), 4 + 36 + 36 + 260);
    assert_eq!(TlvGen::new_rsa3072_pss().estimate_size(), 4 + 36 + 36 + 388);
    assert_eq!(TlvGen::new_ecdsa().estimate_size(), 4 + 36 + 36 + 76);
    assert_eq!(TlvGen::new_ecdsa_p384().estimate_size(), 4 + 52 + 52 + 108);
    assert_eq!(TlvGen::new_ed25519().estimate_size(), 4 + 36 + 36 + 68);
    assert_eq!(TlvGen::new_enc_rsa(128).estimate_size(), 4 + 36 + 260);
    assert_eq!(TlvGen::new_enc_kw(128).estimate_size(), 4 + 36 + 28);
    assert_eq!(TlvGen::new_enc_kw(256).estimate_size(), 4 + 36 + 44);
    assert_eq!(TlvGen::new_ecies_p256(128).estimate_size(), 4 + 36 + 117);
    assert_eq!(TlvGen::new_ecies_p256(256).estimate_size(), 4 + 36 + 133);
    assert_eq!(TlvGen::new_ecies_x25519(128).estimate_size(), 4 + 36 + 84);
    assert_eq!(TlvGen::new_ecies_x25519(256).estimate_size(), 4 + 36 + 100);
}

#[test]
fn rsa_manifest_has_the_estimated_size_and_verifies() {
    let mut keys = no_keys();
    keys.rsa2048_public = rsa_public_der();
    keys.rsa2048_private_pem = to_pem("RSA PRIVATE KEY", &rsa_private_der());
    let mut gen = TlvGen::new_rsa_pss();
    let estimate = gen.estimate_size();
    gen.add_bytes(&payload());
    let tlv = gen.make_tlv(&keys).unwrap();
    assert_eq!(tlv.len(), estimate);
    let found = entries(&tlv);
    assert_eq!(found.len(), 3);
    assert_eq!(found[0], (0x10, sha256_of_payload()));
    assert_eq!(found[1].0, 0x01);
    assert_eq!(
        found[1].1,
        ring::digest::digest(&ring::digest::SHA256, &rsa_public_der()).as_ref()
    );
    assert_eq!(found[2].0, 0x20);
    let key = ring::signature::UnparsedPublicKey::new(
        &ring::signature::RSA_PSS_2048_8192_SHA256,
        rsa_public_der(),
    );
    assert!(key.verify(&payload(), &found[2].1).is_ok());
}

#[test]
fn corrupted_rsa_manifest_does_not_verify() {
    let mut keys = no_keys();
    keys.rsa2048_public = rsa_public_der();
    keys.rsa2048_private_pem = to_pem("RSA PRIVATE KEY", &rsa_private_der());
    let mut gen = TlvGen::new_rsa_pss();
    gen.add_bytes(&payload());
    gen.corrupt_sig();
    let found = entries(&gen.make_tlv(&keys).unwrap());
    // The hash is right, so that the check gets as far as the signature.
    assert_eq!(found[0], (0x10, sha256_of_payload()));
    let key = ring::signature::UnparsedPublicKey::new(
        &ring::signature::RSA_PSS_2048_8192_SHA256,
        rsa_public_der(),
    );
    assert!(key.verify(&payload(), &found[2].1).is_err());
}

#[test]
fn bad_rsa_keys_are_refused() {
    let mut keys = no_keys();
    keys.rsa2048_public = rsa_public_der();
    let mut gen = TlvGen::new_rsa_pss();
    gen.add_bytes(&payload());
    assert_eq!(gen.make_tlv(&keys), Err(TlvError::BadKey));
    // The right key under the wrong tag.
    keys.rsa2048_private_pem = to_pem("PRIVATE KEY", &rsa_private_der());
    let mut gen = TlvGen::new_rsa_pss();
    gen.add_bytes(&payload());
    assert_eq!(gen.make_tlv(&keys), Err(TlvError::BadKey));
    // Something that is no key under the right tag.
    keys.rsa2048_private_pem = to_pem("RSA PRIVATE KEY", &[1, 2, 3]);
    let mut gen = TlvGen::new_rsa_pss();
    gen.add_bytes(&payload());
    assert_eq!(gen.make_tlv(&keys), Err(TlvError::SigningFailed));
    // A key of 2048 bits where one of 3072 bits is asked for.
    keys.rsa3072_public = rsa_public_der();
    keys.rsa3072_private_pem = to_pem("RSA PRIVATE KEY", &rsa_private_der());
    let mut gen = TlvGen::new_rsa3072_pss();
    gen.add_bytes(&payload());
    assert_eq!(gen.make_tlv(&keys), Err(TlvError::SignatureSize));
}

fn ecdsa_keys(p384: bool) -> (KeyStore, Vec<u8>) {
    let rng = ring::rand::SystemRandom::new();
    let alg = if p384 {
        &ring::signature::ECDSA_P384_SHA384_ASN1_SIGNING
    } else {
        &ring::signature::ECDSA_P256_SHA256_ASN1_SIGNING
    };
    let doc = ring::signature::EcdsaKeyPair::generate_pkcs8(alg, &rng).unwrap();
    let pair = ring::signature::EcdsaKeyPair::from_pkcs8(alg, doc.as_ref()).unwrap();
    let public = ring::signature::KeyPair::public_key(&pair).as_ref().to_vec();
    let mut keys = no_keys();
    if p384 {
        keys.ecdsa_p384_public = public.clone();
        keys.ecdsa_p384_private_pem = to_pem("PRIVATE KEY", doc.as_ref());
    } else {
        keys.ecdsa_p256_public = public.clone();
        keys.ecdsa_p256_private_pem = to_pem("PRIVATE KEY", doc.as_ref());
    }
    (keys, public)
}

#[test]
fn ecdsa_manifest_has_the_estimated_size_and_verifies() {
    let (keys, public) = ecdsa_keys(false);
    let mut gen = TlvGen::new_ecdsa();
    let estimate = gen.estimate_size();
    gen.add_bytes(&payload());
    let tlv = gen.make_tlv(&keys).unwrap();
    assert_eq!(tlv.len(), estimate);
    let found = entries(&tlv);
    assert_eq!(found[0], (0x10, sha256_of_payload()));
    assert_eq!(found[1].0, 0x01);
    assert_eq!(found[1].1, ring::digest::digest(&ring::digest::SHA256, &public).as_ref());
    assert_eq!(found[2].0, 0x22);
    assert_eq!(found[2].1.len(), 72);
    let key =
        ring::signature::UnparsedPublicKey::new(&ring::signature::ECDSA_P256_SHA256_ASN1, public);
    assert!(key.verify(&payload(), &found[2].1).is_ok());
}

#[test]
fn ecdsa_p384_manifest_uses_sha384() {
    let (keys, public) = ecdsa_keys(true);
    let mut gen = TlvGen::new_ecdsa_p384();
    let estimate = gen.estimate_size();
    gen.add_bytes(&payload());
    let tlv = gen.make_tlv(&keys).unwrap();
    assert_eq!(tlv.len(), estimate);
    let found = entries(&tlv);
    assert_eq!(found[0].0, 0x11);
    assert_eq!(found[0].1, ring::digest::digest(&ring::digest::SHA384, &payload()).as_ref());
    assert_eq!(found[1].1, ring::digest::digest(&ring::digest::SHA384, &public).as_ref());
    assert_eq!(found[2].1.len(), 104);
    let key =
        ring::signature::UnparsedPublicKey::new(&ring::signature::ECDSA_P384_SHA384_ASN1, public);
    assert!(key.verify(&payload(), &found[2].1).is_ok());
}

#[test]
fn ecdsa_signing_gives_up_on_an_impossible_size() {
    let (keys, _) = ecdsa_keys(false);
    let pkcs8 = pem::parse(&keys.ecdsa_p256_private_pem).unwrap().contents;
    assert_eq!(sign_ecdsa(false, &pkcs8, &payload(), 200), Err(TlvError::SignatureSize));
    assert_eq!(sign_ecdsa(false, &vec![1, 2, 3], &payload(), 72), Err(TlvError::SigningFailed));
    assert_eq!(sign_ecdsa(false, &pkcs8, &payload(), 72).unwrap().len(), 72);
}

#[test]
fn signatures_are_judged_by_their_length() {
    assert_eq!(judge_signature(&Some(vec![0; 72]), 72), Attempt::Accept);
    assert_eq!(judge_signature(&Some(vec![0; 71]), 72), Attempt::Retry);
    assert_eq!(judge_signature(&None, 72), Attempt::Fail);
}

#[test]
fn ed25519_manifest_signs_the_digest() {
    let rng = ring::rand::SystemRandom::new();
    let doc = ring::signature::Ed25519KeyPair::generate_pkcs8(&rng).unwrap();
    let pair = ring::signature::Ed25519KeyPair::from_pkcs8(doc.as_ref()).unwrap();
    let raw = ring::signature::KeyPair::public_key(&pair).as_ref().to_vec();
    // The stored public key has 12 bytes of description before the key.
    let mut public = vec![0x30, 0x2a, 0x30, 0x05, 0x06, 0x03, 0x2b, 0x65, 0x70, 0x03, 0x21, 0x00];
    public.extend_from_slice(&raw);
    let mut keys = no_keys();
    keys.ed25519_public = public.clone();
    keys.ed25519_private_pem = to_pem("PRIVATE KEY", doc.as_ref());
    let mut gen = TlvGen::new_ed25519();
    let estimate = gen.estimate_size();
    gen.add_bytes(&payload());
    let tlv = gen.make_tlv(&keys).unwrap();
    assert_eq!(tlv.len(), estimate);
    let found = entries(&tlv);
    assert_eq!(found[0], (0x10, sha256_of_payload()));
    assert_eq!(found[1].1, ring::digest::digest(&ring::digest::SHA256, &public).as_ref());
    assert_eq!(found[2].0, 0x24);
    let key = ring::signature::UnparsedPublicKey::new(&ring::signature::ED25519, raw);
    assert!(key.verify(&sha256_of_payload(), &found[2].1).is_ok());
    // The signature does not depend on chance.
    let mut again = TlvGen::new_ed25519();
    again.add_bytes(&payload());
    assert_eq!(again.make_tlv(&keys).unwrap(), tlv);
}

#[test]
fn wrapped_keys_are_taken_as_they_are_set() {
    let mut gen = TlvGen::new_enc_kw(128);
    let estimate = gen.estimate_size();
    gen.add_bytes(&payload());
    gen.set_wrapped_key(vec![7; 16], vec![], vec![9; 24]);
    assert_eq!(gen.get_enc_key(), vec![7; 16]);
    let tlv = gen.make_tlv(&no_keys()).unwrap();
    assert_eq!(tlv.len(), estimate);
    let found = entries(&tlv);
    assert_eq!(found[1], (0x31, vec![9; 24]));

    let mut gen = TlvGen::new_enc_rsa(256);
    let estimate = gen.estimate_size();
    gen.add_bytes(&payload());
    gen.set_wrapped_key(vec![7; 32], vec![5; 256], vec![]);
    let tlv = gen.make_tlv(&no_keys()).unwrap();
    assert_eq!(tlv.len(), estimate);
    assert_eq!(entries(&tlv)[1], (0x30, vec![5; 256]));

    // A wrap of the wrong length is no wrap.
    let mut gen = TlvGen::new_enc_kw(256);
    gen.add_bytes(&payload());
    gen.set_wrapped_key(vec![7; 32], vec![], vec![9; 24]);
    assert_eq!(gen.make_tlv(&no_keys()), Err(TlvError::MissingKey));
}

#[test]
fn generated_key_has_the_size_of_the_cipher() {
    let mut gen = TlvGen::new_enc_kw(128);
    assert!(!gen.has_enc_key());
    assert_eq!(ManifestGen::get_enc_key(&gen), None);
    gen.generate_enc_key().unwrap();
    assert!(gen.has_enc_key());
    assert_eq!(gen.get_enc_key().len(), 16);
    let mut gen = TlvGen::new_enc_kw(256);
    gen.generate_enc_key().unwrap();
    let first = gen.get_enc_key();
    assert_eq!(first.len(), 32);
    gen.generate_enc_key().unwrap();
    assert_ne!(gen.get_enc_key(), first);
}

fn hkdf(secret: &[u8], len: usize) -> Vec<u8> {
    // HKDF with an empty salt, written out with the tag function alone.
    let zero = ring::hmac::Key::new(ring::hmac::HMAC_SHA256, &[]);
    let prk = ring::hmac::sign(&zero, secret);
    let key = ring::hmac::Key::new(ring::hmac::HMAC_SHA256, prk.as_ref());
    let mut out: Vec<u8> = vec![];
    let mut last: Vec<u8> = vec![];
    let mut n = 1u8;
    while out.len() < len {
        let mut block = last.clone();
        block.extend_from_slice(b"MCUBoot_ECIES_v1");
        block.push(n);
        last = ring::hmac::sign(&key, &block).as_ref().to_vec();
        out.extend_from_slice(&last);
        n += 1;
    }
    out.truncate(len);
    out
}

#[test]
fn sealed_key_is_public_key_tag_and_cipher() {
    let enc_key = vec![0x42u8; 16];
    let public = vec![1u8, 2, 3, 4, 5];
    let secret = vec![9u8; 32];
    let sealed = ecies_seal(false, &enc_key, &public, &secret).unwrap();
    assert_eq!(sealed.len(), 5 + 32 + 16);
    assert_eq!(&sealed[..5], &public[..]);
    let derived = hkdf(&secret, 48);
    let mut cipher =
        <aes::Aes128Ctr as cipher::NewCipher>::new_from_slices(&derived[..16], &[0u8; 16]).unwrap();
    let mut want = enc_key.clone();
    cipher::StreamCipher::apply_keystream(&mut cipher, &mut want);
    assert_ne!(want, enc_key);
    assert_eq!(&sealed[37..], &want[..]);
    let tag_key = ring::hmac::Key::new(ring::hmac::HMAC_SHA256, &derived[16..]);
    assert_eq!(&sealed[5..37], ring::hmac::sign(&tag_key, &want).as_ref());
}

#[test]
fn sealed_key_for_aes256() {
    let enc_key = vec![0x42u8; 32];
    let public = vec![7u8; 65];
    let secret = vec![3u8; 32];
    let sealed = ecies_seal(true, &enc_key, &public, &secret).unwrap();
    assert_eq!(sealed.len(), 129);
    let derived = hkdf(&secret, 64);
    let mut cipher =
        <aes::Aes256Ctr as cipher::NewCipher>::new_from_slices(&derived[..32], &[0u8; 16]).unwrap();
    let mut want = enc_key.clone();
    cipher::StreamCipher::apply_keystream(&mut cipher, &mut want);
    assert_eq!(&sealed[97..], &want[..]);
    let tag_key = ring::hmac::Key::new(ring::hmac::HMAC_SHA256, &derived[32..]);
    assert_eq!(&sealed[65..97], ring::hmac::sign(&tag_key, &want).as_ref());
}

#[test]
fn ecies_p256_manifest_has_the_estimated_size() {
    let mut contents = vec![0u8; 26];
    contents.extend_from_slice(&p256_public_point());
    let mut keys = no_keys();
    keys.enc_ec256_public_pem = to_pem("PUBLIC KEY", &contents);
    for bits in [128u32, 256] {
        let mut gen = TlvGen::new_ecies_p256(bits);
        let estimate = gen.estimate_size();
        gen.add_bytes(&payload());
        gen.generate_enc_key().unwrap();
        let tlv = gen.make_tlv(&keys).unwrap();
        assert_eq!(tlv.len(), estimate);
        let found = entries(&tlv);
        assert_eq!(found[1].0, 0x32);
        // The entry starts with a fresh public key: an uncompressed point.
        assert_eq!(found[1].1[0], 4);
    }
    // Without a key to seal there is no entry.
    let mut gen = TlvGen::new_ecies_p256(128);
    gen.add_bytes(&payload());
    assert_eq!(gen.make_tlv(&keys), Err(TlvError::MissingKey));
}

#[test]
fn ecies_x25519_manifest_has_the_estimated_size() {
    let mut contents = vec![0u8; 12];
    let mut point = vec![0u8; 32];
    point[0] = 9;
    contents.extend_from_slice(&point);
    let mut keys = no_keys();
    keys.enc_x25519_public_pem = to_pem("PUBLIC KEY", &contents);
    for bits in [128u32, 256] {
        let mut gen = TlvGen::new_ecies_x25519(bits);
        let estimate = gen.estimate_size();
        gen.add_bytes(&payload());
        gen.generate_enc_key().unwrap();
        let tlv = gen.make_tlv(&keys).unwrap();
        assert_eq!(tlv.len(), estimate);
        assert_eq!(entries(&tlv)[1].0, 0x33);
    }
}

#[test]
fn two_rsa_signatures_are_not_supported() {
    let gen = TlvGen::new_rsa_pss();
    assert!(gen.is_supported());
    assert!(gen.has_signature());
    assert!(!TlvGen::new_hash_only().has_signature());
}

#[test]
fn parts_of_the_wrong_length_are_refused() {
    let gen = TlvGen::new_hash_only();
    let mut parts = TlvParts {
        hash: vec![0; 31],
        rsa_keyhash: vec![],
        rsa_sig: vec![],
        ecdsa_keyhash: vec![],
        ecdsa_sig: vec![],
        ed25519_keyhash: vec![],
        ed25519_sig: vec![],
        enc_rsa: vec![],
        enc_kw: vec![],
        ecies: vec![],
    };
    assert!(!gen.fits(&parts));
    assert_eq!(gen.assemble(&parts), Err(TlvError::PartLength));
    parts.hash = vec![0xab; 32];
    assert!(gen.fits(&parts));
    let tlv = gen.assemble(&parts).unwrap();
    assert_eq!(tlv.len(), gen.estimate_size());
    assert_eq!(&tlv[..8], &[0x07, 0x69, 40, 0, 0x10, 0, 32, 0]);
    assert_eq!(&tlv[8..], &[0xab; 32]);
}

#[test]
fn pem_blocks_are_read_by_tag() {
    let pem = to_pem("PUBLIC KEY", &[1, 2, 3, 4]);
    assert_eq!(read_pem(&pem, &b"PUBLIC KEY".to_vec()), Some(vec![1, 2, 3, 4]));
    assert_eq!(read_pem(&pem, &b"PRIVATE KEY".to_vec()), None);
    assert_eq!(read_pem(&b"no pem at all".to_vec(), &b"PUBLIC KEY".to_vec()), None);
}

#[test]
fn manifest_through_the_trait() {
    let mut gen = TlvGen::new_hash_only();
    assert_eq!(ManifestGen::get_magic(&gen), 0x96f3b83d);
    assert_eq!(ManifestGen::estimate_size(&gen), 40);
    ManifestGen::add_bytes(&mut gen, &payload());
    let tlv = ManifestGen::make_tlv(gen, &no_keys()).unwrap();
    assert_eq!(&tlv[8..], &sha256_of_payload()[..]);
}

#[test]
fn keys_that_cannot_be_read_are_refused() {
    // Ed25519: no block, a block with the wrong tag, a block that is too
    // short, and a public key that is too short.
    let doc = ring::signature::Ed25519KeyPair::generate_pkcs8(&ring::rand::SystemRandom::new())
        .unwrap();
    let mut keys = no_keys();
    keys.ed25519_public = vec![0; 44];
    let mut refused = |pem: Vec<u8>, public: Vec<u8>| {
        keys.ed25519_private_pem = pem;
        keys.ed25519_public = public;
        let mut gen = TlvGen::new_ed25519();
        gen.add_bytes(&payload());
        gen.make_tlv(&keys)
    };
    assert_eq!(refused(vec![], vec![0; 44]), Err(TlvError::BadKey));
    assert_eq!(refused(to_pem("PUBLIC KEY", doc.as_ref()), vec![0; 44]), Err(TlvError::BadKey));
    assert_eq!(refused(to_pem("PRIVATE KEY", &[0; 47]), vec![0; 44]), Err(TlvError::BadKey));
    assert_eq!(refused(to_pem("PRIVATE KEY", doc.as_ref()), vec![0; 43]), Err(TlvError::BadKey));
    // A public key that does not go with the private one.
    assert_eq!(
        refused(to_pem("PRIVATE KEY", doc.as_ref()), vec![0; 44]),
        Err(TlvError::SigningFailed)
    );

    // The key to seal for: no block, the wrong tag, too short a block.
    let mut keys = no_keys();
    let mut sealed = |pem: Vec<u8>| {
        keys.enc_x25519_public_pem = pem;
        let mut gen = TlvGen::new_ecies_x25519(128);
        gen.add_bytes(&payload());
        gen.generate_enc_key().unwrap();
        gen.make_tlv(&keys)
    };
    assert_eq!(sealed(vec![]), Err(TlvError::BadKey));
    assert_eq!(sealed(to_pem("PRIVATE KEY", &[0; 44])), Err(TlvError::BadKey));
    assert_eq!(sealed(to_pem("PUBLIC KEY", &[0; 11])), Err(TlvError::BadKey));

    // ECDSA: no block.
    let mut gen = TlvGen::new_ecdsa();
    gen.add_bytes(&payload());
    assert_eq!(gen.make_tlv(&no_keys()), Err(TlvError::BadKey));
}
