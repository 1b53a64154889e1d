//! The likely subtags of languages, scripts and regions.
//!
//! Each table maps a key to a full tag, as language, script and region. A
//! subtag is held as the word that packs its bytes, the first byte lowest;
//! an absent subtag is the word zero. A key composes the words of two
//! subtags, one in the high half and one in the low half. Every table is in
//! strictly ascending order of its keys.

use vstd::prelude::*;

verus! {

/// One row of a table: the key, and the language, the script and the region
/// of the tag that it stands for.
pub type Row = (u64, u32, u32, u32);

/// From a script and a region to a tag: the region in the high half of the
/// key, the script in the low half.
pub const SCRIPT_REGION: [Row; 84] = [
    (0x41426c727943, 0x7273, 0x6c727943, 0x4142),  // und-Cyrl-BA: sr-Cyrl-BA
    (0x4143746e6148, 0x657579, 0x746e6148, 0x4143),  // und-Hant-CA: yue-Hant-CA
    (0x414d6e74614c, 0x7266, 0x6e74614c, 0x414d),  // und-Latn-MA: fr-Latn-MA
    (0x41556c727943, 0x6b75, 0x6c727943, 0x4155),  // und-Cyrl-UA: uk-Cyrl-UA
    (0x41556e74614c, 0x6c70, 0x6e74614c, 0x4155),  // und-Latn-UA: pl-Latn-UA
    (0x415572626548, 0x6979, 0x72626548, 0x4155),  // und-Hebr-UA: yi-Hebr-UA
    (0x424762617241, 0x7275, 0x62617241, 0x4247),  // und-Arab-GB: ur-Arab-GB
    (0x424772626548, 0x6979, 0x72626548, 0x4247),  // und-Hebr-GB: yi-Hebr-GB
    (0x424c6e74614c, 0x6e65, 0x6e74614c, 0x424c),  // und-Latn-LB: en-Latn-LB
    (0x434362617241, 0x736d, 0x62617241, 0x4343),  // und-Arab-CC: ms-Arab-CC
    (0x43436e74614c, 0x6e65, 0x6e74614c, 0x4343),  // und-Latn-CC: en-Latn-CC
    (0x44426e74614c, 0x6e65, 0x6e74614c, 0x4442),  // und-Latn-BD: en-Latn-BD
    (0x444962617241, 0x736d, 0x62617241, 0x4449),  // und-Arab-ID: ms-Arab-ID
    (0x444d6c727943, 0x6b75, 0x6c727943, 0x444d),  // und-Cyrl-MD: uk-Cyrl-MD
    (0x44536e74614c, 0x6e65, 0x6e74614c, 0x4453),  // und-Latn-SD: en-Latn-SD
    (0x45416e74614c, 0x6e65, 0x6e74614c, 0x4541),  // und-Latn-AE: en-Latn-AE
    (0x45476e74614c, 0x756b, 0x6e74614c, 0x4547),  // und-Latn-GE: ku-Latn-GE
    (0x454d6c727943, 0x7273, 0x6c727943, 0x454d),  // und-Cyrl-ME: sr-Cyrl-ME
    (0x455372626548, 0x6979, 0x72626548, 0x4553),  // und-Hebr-SE: yi-Hebr-SE
    (0x45596e74614c, 0x6e65, 0x6e74614c, 0x4559),  // und-Latn-YE: en-Latn-YE
    (0x464162617241, 0x6166, 0x62617241, 0x4641),  // und-Arab-AF: fa-Arab-AF
    (0x46416e74614c, 0x6b74, 0x6e74614c, 0x4641),  // und-Latn-AF: tk-Latn-AF
    (0x47426c727943, 0x6762, 0x6c727943, 0x4742),  // und-Cyrl-BG: bg-Cyrl-BG
    (0x47426e74614c, 0x6e65, 0x6e74614c, 0x4742),  // und-Latn-BG: en-Latn-BG
    (0x47456e74614c, 0x6e65, 0x6e74614c, 0x4745),  // und-Latn-EG: en-Latn-EG
    (0x474b6c727943, 0x796b, 0x6c727943, 0x474b),  // und-Cyrl-KG: ky-Cyrl-KG
    (0x474e62617241, 0x6168, 0x62617241, 0x474e),  // und-Arab-NG: ha-Arab-NG
    (0x48546e74614c, 0x6e65, 0x6e74614c, 0x4854),  // und-Latn-TH: en-Latn-TH
    (0x4a5462617241, 0x6166, 0x62617241, 0x4a54),  // und-Arab-TJ: fa-Arab-TJ
    (0x4a546c727943, 0x6774, 0x6c727943, 0x4a54),  // und-Cyrl-TJ: tg-Cyrl-TJ
    (0x4b486e74614c, 0x6e65, 0x6e74614c, 0x4b48),  // und-Latn-HK: en-Latn-HK
    (0x4b4c6e74614c, 0x6e65, 0x6e74614c, 0x4b4c),  // und-Latn-LK: en-Latn-LK
    (0x4b4d6c727943, 0x6b6d, 0x6c727943, 0x4b4d),  // und-Cyrl-MK: mk-Cyrl-MK
    (0x4b4d6e74614c, 0x7173, 0x6e74614c, 0x4b4d),  // und-Latn-MK: sq-Latn-MK
    (0x4b5062617241, 0x7275, 0x62617241, 0x4b50),  // und-Arab-PK: ur-Arab-PK
    (0x4b506e74614c, 0x6e65, 0x6e74614c, 0x4b50),  // und-Latn-PK: en-Latn-PK
    (0x4b536c727943, 0x6b75, 0x6c727943, 0x4b53),  // und-Cyrl-SK: uk-Cyrl-SK
    (0x4b546e74614c, 0x6e65, 0x6e74614c, 0x4b54),  // und-Latn-TK: en-Latn-TK
    (0x4b586c727943, 0x7273, 0x6c727943, 0x4b58),  // und-Cyrl-XK: sr-Cyrl-XK
    (0x4c416c727943, 0x6b6d, 0x6c727943, 0x4c41),  // und-Cyrl-AL: mk-Cyrl-AL
    (0x4c496e74614c, 0x6e65, 0x6e74614c, 0x4c49),  // und-Latn-IL: en-Latn-IL
    (0x4c536e74614c, 0x6e65, 0x6e74614c, 0x4c53),  // und-Latn-SL: en-Latn-SL
    (0x4d416e74614c, 0x756b, 0x6e74614c, 0x4d41),  // und-Latn-AM: ku-Latn-AM
    (0x4d4b6e74614c, 0x7266, 0x6e74614c, 0x4d4b),  // und-Latn-KM: fr-Latn-KM
    (0x4d5a6e74614c, 0x6e65, 0x6e74614c, 0x4d5a),  // und-Latn-ZM: en-Latn-ZM
    (0x4e4262617241, 0x736d, 0x62617241, 0x4e42),  // und-Arab-BN: ms-Arab-BN
    (0x4e4362617241, 0x6775, 0x62617241, 0x4e43),  // und-Arab-CN: ug-Arab-CN
    (0x4e436e74614c, 0x617a, 0x6e74614c, 0x4e43),  // und-Latn-CN: za-Latn-CN
    (0x4e43746e6148, 0x657579, 0x746e6148, 0x4e43),  // und-Hant-CN: yue-Hant-CN
    (0x4e4962617241, 0x7275, 0x62617241, 0x4e49),  // und-Arab-IN: ur-Arab-IN
    (0x4e496e74614c, 0x6e65, 0x6e74614c, 0x4e49),  // und-Latn-IN: en-Latn-IN
    (0x4e4d62617241, 0x6b6b, 0x62617241, 0x4e4d),  // und-Arab-MN: kk-Arab-MN
    (0x4e4d6c727943, 0x6e6d, 0x6c727943, 0x4e4d),  // und-Cyrl-MN: mn-Cyrl-MN
    (0x4e546e74614c, 0x7266, 0x6e74614c, 0x4e54),  // und-Latn-TN: fr-Latn-TN
    (0x4f4a6e74614c, 0x6e65, 0x6e74614c, 0x4f4a),  // und-Latn-JO: en-Latn-JO
    (0x4f4d6e74614c, 0x7470, 0x6e74614c, 0x4f4d),  // und-Latn-MO: pt-Latn-MO
    (0x4f526c727943, 0x6762, 0x6c727943, 0x4f52),  // und-Cyrl-RO: bg-Cyrl-RO
    (0x504e61766544, 0x656e, 0x61766544, 0x504e),  // und-Deva-NP: ne-Deva-NP
    (0x504e6e74614c, 0x6e65, 0x6e74614c, 0x504e),  // und-Latn-NP: en-Latn-NP
    (0x51496e74614c, 0x6e65, 0x6e74614c, 0x5149),  // und-Latn-IQ: en-Latn-IQ
    (0x524569687445, 0x6974, 0x69687445, 0x5245),  // und-Ethi-ER: ti-Ethi-ER
    (0x52456e74614c, 0x6e65, 0x6e74614c, 0x5245),  // und-Latn-ER: en-Latn-ER
    (0x52476c727943, 0x6b6d, 0x6c727943, 0x5247),  // und-Cyrl-GR: mk-Cyrl-GR
    (0x52476e74614c, 0x6e65, 0x6e74614c, 0x5247),  // und-Latn-GR: en-Latn-GR
    (0x524962617241, 0x6166, 0x62617241, 0x5249),  // und-Arab-IR: fa-Arab-IR
    (0x52496e74614c, 0x6b74, 0x6e74614c, 0x5249),  // und-Latn-IR: tk-Latn-IR
    (0x524d6e74614c, 0x7266, 0x6e74614c, 0x524d),  // und-Latn-MR: fr-Latn-MR
    (0x53526c727943, 0x7273, 0x6c727943, 0x5352),  // und-Cyrl-RS: sr-Cyrl-RS
    (0x53536e74614c, 0x6e65, 0x6e74614c, 0x5353),  // und-Latn-SS: en-Latn-SS
    (0x535572626548, 0x6979, 0x72626548, 0x5355),  // und-Hebr-US: yi-Hebr-US
    (0x544261766544, 0x656e, 0x61766544, 0x5442),  // und-Deva-BT: ne-Deva-BT
    (0x54426e74614c, 0x6e65, 0x6e74614c, 0x5442),  // und-Latn-BT: en-Latn-BT
    (0x54456e74614c, 0x6e65, 0x6e74614c, 0x5445),  // und-Latn-ET: en-Latn-ET
    (0x554d61766544, 0x6f6862, 0x61766544, 0x554d),  // und-Deva-MU: bho-Deva-MU
    (0x554d62617241, 0x7275, 0x62617241, 0x554d),  // und-Arab-MU: ur-Arab-MU
    (0x554d6e74614c, 0x6e65, 0x6e74614c, 0x554d),  // und-Latn-MU: en-Latn-MU
    (0x564d6e74614c, 0x6e65, 0x6e74614c, 0x564d),  // und-Latn-MV: en-Latn-MV
    (0x59426c727943, 0x6562, 0x6c727943, 0x5942),  // und-Cyrl-BY: be-Cyrl-BY
    (0x59436e74614c, 0x7274, 0x6e74614c, 0x5943),  // und-Latn-CY: tr-Latn-CY
    (0x59536e74614c, 0x7266, 0x6e74614c, 0x5953),  // und-Latn-SY: fr-Latn-SY
    (0x5a416c727943, 0x7a61, 0x6c727943, 0x5a41),  // und-Cyrl-AZ: az-Cyrl-AZ
    (0x5a446e74614c, 0x7266, 0x6e74614c, 0x5a44),  // und-Latn-DZ: fr-Latn-DZ
    (0x5a4b6e74614c, 0x6e65, 0x6e74614c, 0x5a4b),  // und-Latn-KZ: en-Latn-KZ
    (0x5a556c727943, 0x7a75, 0x6c727943, 0x5a55),  // und-Cyrl-UZ: uz-Cyrl-UZ
];

/// From a language and a region to a tag: the region in the high half of
/// the key, the language in the low half.
pub const LANG_REGION: [Row; 211] = [
    (0x414200000000, 0x7362, 0x6e74614c, 0x4142),  // und-BA: bs-Latn-BA
    (0x414500000000, 0x7365, 0x6e74614c, 0x4145),  // und-EA: es-Latn-EA
    (0x414700000000, 0x7266, 0x6e74614c, 0x4147),  // und-GA: fr-Latn-GA
    (0x414c00000000, 0x6f6c, 0x6f6f614c, 0x414c),  // und-LA: lo-Laoo-LA
    (0x414d00000000, 0x7261, 0x62617241, 0x414d),  // und-MA: ar-Arab-MA
    (0x414e00000000, 0x6661, 0x6e74614c, 0x414e),  // und-NA: af-Latn-NA
    (0x415000000000, 0x7365, 0x6e74614c, 0x4150),  // und-PA: es-Latn-PA
    (0x41500000687a, 0x687a, 0x746e6148, 0x4150),  // zh-PA: zh-Hant-PA
    (0x415100000000, 0x7261, 0x62617241, 0x4151),  // und-QA: ar-Arab-QA
    (0x415300000000, 0x7261, 0x62617241, 0x4153),  // und-SA: ar-Arab-SA
    (0x415500000000, 0x6b75, 0x6c727943, 0x4155),  // und-UA: uk-Cyrl-UA
    (0x415600000000, 0x7469, 0x6e74614c, 0x4156),  // und-VA: it-Latn-VA
    (0x42470000687a, 0x687a, 0x746e6148, 0x4247),  // zh-GB: zh-Hant-GB
    (0x424c00000000, 0x7261, 0x62617241, 0x424c),  // und-LB: ar-Arab-LB
    (0x424c0000756b, 0x756b, 0x62617241, 0x424c),  // ku-LB: ku-Arab-LB
    (0x434300000000, 0x736d, 0x62617241, 0x4343),  // und-CC: ms-Arab-CC
    (0x43430000736d, 0x736d, 0x62617241, 0x4343),  // ms-CC: ms-Arab-CC
    (0x434500000000, 0x7365, 0x6e74614c, 0x4345),  // und-EC: es-Latn-EC
    (0x434900000000, 0x7365, 0x6e74614c, 0x4349),  // und-IC: es-Latn-IC
    (0x434d00000000, 0x7266, 0x6e74614c, 0x434d),  // und-MC: fr-Latn-MC
    (0x434e00000000, 0x7266, 0x6e74614c, 0x434e),  // und-NC: fr-Latn-NC
    (0x435300000000, 0x7266, 0x6e74614c, 0x4353),  // und-SC: fr-Latn-SC
    (0x444100000000, 0x6163, 0x6e74614c, 0x4441),  // und-AD: ca-Latn-AD
    (0x444200000000, 0x6e62, 0x676e6542, 0x4442),  // und-BD: bn-Beng-BD
    (0x444300000000, 0x7773, 0x6e74614c, 0x4443),  // und-CD: sw-Latn-CD
    (0x444900000000, 0x6469, 0x6e74614c, 0x4449),  // und-ID: id-Latn-ID
    (0x44490000687a, 0x687a, 0x746e6148, 0x4449),  // zh-ID: zh-Hant-ID
    (0x444d00000000, 0x6f72, 0x6e74614c, 0x444d),  // und-MD: ro-Latn-MD
    (0x445300000000, 0x7261, 0x62617241, 0x4453),  // und-SD: ar-Arab-SD
    (0x445300006168, 0x6168, 0x62617241, 0x4453),  // ha-SD: ha-Arab-SD
    (0x445400000000, 0x7266, 0x6e74614c, 0x4454),  // und-TD: fr-Latn-TD
    (0x454100000000, 0x7261, 0x62617241, 0x4541),  // und-AE: ar-Arab-AE
    (0x454200000000, 0x6c6e, 0x6e74614c, 0x4542),  // und-BE: nl-Latn-BE
    (0x454400000000, 0x6564, 0x6e74614c, 0x4544),  // und-DE: de-Latn-DE
    (0x454500000000, 0x7465, 0x6e74614c, 0x4545),  // und-EE: et-Latn-EE
    (0x454700000000, 0x616b, 0x726f6547, 0x4547),  // und-GE: ka-Geor-GE
    (0x454b00000000, 0x7773, 0x6e74614c, 0x454b),  // und-KE: sw-Latn-KE
    (0x454d00000000, 0x7273, 0x6e74614c, 0x454d),  // und-ME: sr-Latn-ME
    (0x454d00007273, 0x7273, 0x6e74614c, 0x454d),  // sr-ME: sr-Latn-ME
    (0x454e00000000, 0x6168, 0x6e74614c, 0x454e),  // und-NE: ha-Latn-NE
    (0x455000000000, 0x7365, 0x6e74614c, 0x4550),  // und-PE: es-Latn-PE
    (0x455200000000, 0x7266, 0x6e74614c, 0x4552),  // und-RE: fr-Latn-RE
    (0x455300000000, 0x7673, 0x6e74614c, 0x4553),  // und-SE: sv-Latn-SE
    (0x455600000000, 0x7365, 0x6e74614c, 0x4556),  // und-VE: es-Latn-VE
    (0x455900000000, 0x7261, 0x62617241, 0x4559),  // und-YE: ar-Arab-YE
    (0x464100000000, 0x6166, 0x62617241, 0x4641),  // und-AF: fa-Arab-AF
    (0x464100006b6b, 0x6b6b, 0x62617241, 0x4641),  // kk-AF: kk-Arab-AF
    (0x464100007a75, 0x7a75, 0x62617241, 0x4641),  // uz-AF: uz-Arab-AF
    (0x464200000000, 0x7266, 0x6e74614c, 0x4642),  // und-BF: fr-Latn-BF
    (0x464300000000, 0x7266, 0x6e74614c, 0x4643),  // und-CF: fr-Latn-CF
    (0x464700000000, 0x7266, 0x6e74614c, 0x4647),  // und-GF: fr-Latn-GF
    (0x46470000687a, 0x687a, 0x746e6148, 0x4647),  // zh-GF: zh-Hant-GF
    (0x464d00000000, 0x7266, 0x6e74614c, 0x464d),  // und-MF: fr-Latn-MF
    (0x465000000000, 0x7266, 0x6e74614c, 0x4650),  // und-PF: fr-Latn-PF
    (0x46500000687a, 0x687a, 0x746e6148, 0x4650),  // zh-PF: zh-Hant-PF
    (0x465400000000, 0x7266, 0x6e74614c, 0x4654),  // und-TF: fr-Latn-TF
    (0x465700000000, 0x7266, 0x6e74614c, 0x4657),  // und-WF: fr-Latn-WF
    (0x474200000000, 0x6762, 0x6c727943, 0x4742),  // und-BG: bg-Cyrl-BG
    (0x474300000000, 0x7266, 0x6e74614c, 0x4743),  // und-CG: fr-Latn-CG
    (0x474500000000, 0x7261, 0x62617241, 0x4745),  // und-EG: ar-Arab-EG
    (0x474b00000000, 0x796b, 0x6c727943, 0x474b),  // und-KG: ky-Cyrl-KG
    (0x475400000000, 0x7266, 0x6e74614c, 0x4754),  // und-TG: fr-Latn-TG
    (0x475500000000, 0x7773, 0x6e74614c, 0x4755),  // und-UG: sw-Latn-UG
    (0x484200000000, 0x7261, 0x62617241, 0x4842),  // und-BH: ar-Arab-BH
    (0x484300000000, 0x6564, 0x6e74614c, 0x4843),  // und-CH: de-Latn-CH
    (0x484500000000, 0x7261, 0x62617241, 0x4845),  // und-EH: ar-Arab-EH
    (0x484700000000, 0x6b61, 0x6e74614c, 0x4847),  // und-GH: ak-Latn-GH
    (0x484b00000000, 0x6d6b, 0x726d684b, 0x484b),  // und-KH: km-Khmr-KH
    (0x485000000000, 0x6c6966, 0x6e74614c, 0x4850),  // und-PH: fil-Latn-PH
    (0x48500000687a, 0x687a, 0x746e6148, 0x4850),  // zh-PH: zh-Hant-PH
    (0x485400000000, 0x6874, 0x69616854, 0x4854),  // und-TH: th-Thai-TH
    (0x48540000687a, 0x687a, 0x746e6148, 0x4854),  // zh-TH: zh-Hant-TH
    (0x494300000000, 0x7266, 0x6e74614c, 0x4943),  // und-CI: fr-Latn-CI
    (0x494600000000, 0x6966, 0x6e74614c, 0x4946),  // und-FI: fi-Latn-FI
    (0x494c00000000, 0x6564, 0x6e74614c, 0x494c),  // und-LI: de-Latn-LI
    (0x494e00000000, 0x7365, 0x6e74614c, 0x494e),  // und-NI: es-Latn-NI
    (0x495300000000, 0x6c73, 0x6e74614c, 0x4953),  // und-SI: sl-Latn-SI
    (0x4a4200000000, 0x7266, 0x6e74614c, 0x4a42),  // und-BJ: fr-Latn-BJ
    (0x4a5400000000, 0x6774, 0x6c727943, 0x4a54),  // und-TJ: tg-Cyrl-TJ
    (0x4b4400000000, 0x6164, 0x6e74614c, 0x4b44),  // und-DK: da-Latn-DK
    (0x4b4800000000, 0x687a, 0x746e6148, 0x4b48),  // und-HK: zh-Hant-HK
    (0x4b480000687a, 0x687a, 0x746e6148, 0x4b48),  // zh-HK: zh-Hant-HK
    (0x4b4c00000000, 0x6973, 0x686e6953, 0x4b4c),  // und-LK: si-Sinh-LK
    (0x4b4d00000000, 0x6b6d, 0x6c727943, 0x4b4d),  // und-MK: mk-Cyrl-MK
    (0x4b5000000000, 0x7275, 0x62617241, 0x4b50),  // und-PK: ur-Arab-PK
    (0x4b5000006170, 0x6170, 0x62617241, 0x4b50),  // pa-PK: pa-Arab-PK
    (0x4b5000006774, 0x6774, 0x62617241, 0x4b50),  // tg-PK: tg-Arab-PK
    (0x4b5300000000, 0x6b73, 0x6e74614c, 0x4b53),  // und-SK: sk-Latn-SK
    (0x4b5800000000, 0x7173, 0x6e74614c, 0x4b58),  // und-XK: sq-Latn-XK
    (0x4c4100000000, 0x7173, 0x6e74614c, 0x4c41),  // und-AL: sq-Latn-AL
    (0x4c4200000000, 0x7266, 0x6e74614c, 0x4c42),  // und-BL: fr-Latn-BL
    (0x4c4300000000, 0x7365, 0x6e74614c, 0x4c43),  // und-CL: es-Latn-CL
    (0x4c4900000000, 0x6568, 0x72626548, 0x4c49),  // und-IL: he-Hebr-IL
    (0x4c4e00000000, 0x6c6e, 0x6e74614c, 0x4c4e),  // und-NL: nl-Latn-NL
    (0x4c5000000000, 0x6c70, 0x6e74614c, 0x4c50),  // und-PL: pl-Latn-PL
    (0x4c5400000000, 0x7470, 0x6e74614c, 0x4c54),  // und-TL: pt-Latn-TL
    (0x4d4100000000, 0x7968, 0x6e6d7241, 0x4d41),  // und-AM: hy-Armn-AM
    (0x4d4300000000, 0x7266, 0x6e74614c, 0x4d43),  // und-CM: fr-Latn-CM
    (0x4d4300006168, 0x6168, 0x62617241, 0x4d43),  // ha-CM: ha-Arab-CM
    (0x4d4b00000000, 0x7261, 0x62617241, 0x4d4b),  // und-KM: ar-Arab-KM
    (0x4d4d00000000, 0x796d, 0x726d794d, 0x4d4d),  // und-MM: my-Mymr-MM
    (0x4d4f00000000, 0x7261, 0x62617241, 0x4d4f),  // und-OM: ar-Arab-OM
    (0x4d5000000000, 0x7266, 0x6e74614c, 0x4d50),  // und-PM: fr-Latn-PM
    (0x4d5300000000, 0x7469, 0x6e74614c, 0x4d53),  // und-SM: it-Latn-SM
    (0x4d5400000000, 0x6b74, 0x6e74614c, 0x4d54),  // und-TM: tk-Latn-TM
    (0x4e4200000000, 0x736d, 0x6e74614c, 0x4e42),  // und-BN: ms-Latn-BN
    (0x4e420000687a, 0x687a, 0x746e6148, 0x4e42),  // zh-BN: zh-Hant-BN
    (0x4e4300000000, 0x687a, 0x736e6148, 0x4e43),  // und-CN: zh-Hans-CN
    (0x4e4300006b6b, 0x6b6b, 0x62617241, 0x4e43),  // kk-CN: kk-Arab-CN
    (0x4e4300006e6d, 0x6e6d, 0x676e6f4d, 0x4e43),  // mn-CN: mn-Mong-CN
    (0x4e430000796b, 0x796b, 0x62617241, 0x4e43),  // ky-CN: ky-Arab-CN
    (0x4e4300007a75, 0x7a75, 0x6c727943, 0x4e43),  // uz-CN: uz-Cyrl-CN
    (0x4e4300657579, 0x657579, 0x736e6148, 0x4e43),  // yue-CN: yue-Hans-CN
    (0x4e4700000000, 0x7266, 0x6e74614c, 0x4e47),  // und-GN: fr-Latn-GN
    (0x4e4800000000, 0x7365, 0x6e74614c, 0x4e48),  // und-HN: es-Latn-HN
    (0x4e4900000000, 0x6968, 0x61766544, 0x4e49),  // und-IN: hi-Deva-IN
    (0x4e4900006473, 0x6473, 0x61766544, 0x4e49),  // sd-IN: sd-Deva-IN
    (0x4e4d00000000, 0x6e6d, 0x6c727943, 0x4e4d),  // und-MN: mn-Cyrl-MN
    (0x4e4d00006775, 0x6775, 0x6c727943, 0x4e4d),  // ug-MN: ug-Cyrl-MN
    (0x4e4d00006b6b, 0x6b6b, 0x62617241, 0x4e4d),  // kk-MN: kk-Arab-MN
    (0x4e5300000000, 0x7266, 0x6e74614c, 0x4e53),  // und-SN: fr-Latn-SN
    (0x4e5400000000, 0x7261, 0x62617241, 0x4e54),  // und-TN: ar-Arab-TN
    (0x4e5600000000, 0x6976, 0x6e74614c, 0x4e56),  // und-VN: vi-Latn-VN
    (0x4e560000687a, 0x687a, 0x746e6148, 0x4e56),  // zh-VN: zh-Hant-VN
    (0x4f4100000000, 0x7470, 0x6e74614c, 0x4f41),  // und-AO: pt-Latn-AO
    (0x4f4200000000, 0x7365, 0x6e74614c, 0x4f42),  // und-BO: es-Latn-BO
    (0x4f4300000000, 0x7365, 0x6e74614c, 0x4f43),  // und-CO: es-Latn-CO
    (0x4f4400000000, 0x7365, 0x6e74614c, 0x4f44),  // und-DO: es-Latn-DO
    (0x4f4600000000, 0x6f66, 0x6e74614c, 0x4f46),  // und-FO: fo-Latn-FO
    (0x4f4a00000000, 0x7261, 0x62617241, 0x4f4a),  // und-JO: ar-Arab-JO
    (0x4f4d00000000, 0x687a, 0x746e6148, 0x4f4d),  // und-MO: zh-Hant-MO
    (0x4f4d0000687a, 0x687a, 0x746e6148, 0x4f4d),  // zh-MO: zh-Hant-MO
    (0x4f5200000000, 0x6f72, 0x6e74614c, 0x4f52),  // und-RO: ro-Latn-RO
    (0x4f5200007273, 0x7273, 0x6e74614c, 0x4f52),  // sr-RO: sr-Latn-RO
    (0x4f5300000000, 0x6f73, 0x6e74614c, 0x4f53),  // und-SO: so-Latn-SO
    (0x4f5400000000, 0x6f74, 0x6e74614c, 0x4f54),  // und-TO: to-Latn-TO
    (0x504700000000, 0x7266, 0x6e74614c, 0x5047),  // und-GP: fr-Latn-GP
    (0x504a00000000, 0x616a, 0x6e61704a, 0x504a),  // und-JP: ja-Jpan-JP
    (0x504b00000000, 0x6f6b, 0x65726f4b, 0x504b),  // und-KP: ko-Kore-KP
    (0x504e00000000, 0x656e, 0x61766544, 0x504e),  // und-NP: ne-Deva-NP
    (0x514700000000, 0x7365, 0x6e74614c, 0x5147),  // und-GQ: es-Latn-GQ
    (0x514900000000, 0x7261, 0x62617241, 0x5149),  // und-IQ: ar-Arab-IQ
    (0x514900007a61, 0x7a61, 0x62617241, 0x5149),  // az-IQ: az-Arab-IQ
    (0x514d00000000, 0x7266, 0x6e74614c, 0x514d),  // und-MQ: fr-Latn-MQ
    (0x524100000000, 0x7365, 0x6e74614c, 0x5241),  // und-AR: es-Latn-AR
    (0x524200000000, 0x7470, 0x6e74614c, 0x5242),  // und-BR: pt-Latn-BR
    (0x524300000000, 0x7365, 0x6e74614c, 0x5243),  // und-CR: es-Latn-CR
    (0x524500000000, 0x6974, 0x69687445, 0x5245),  // und-ER: ti-Ethi-ER
    (0x524600000000, 0x7266, 0x6e74614c, 0x5246),  // und-FR: fr-Latn-FR
    (0x524700000000, 0x6c65, 0x6b657247, 0x5247),  // und-GR: el-Grek-GR
    (0x524800000000, 0x7268, 0x6e74614c, 0x5248),  // und-HR: hr-Latn-HR
    (0x524900000000, 0x6166, 0x62617241, 0x5249),  // und-IR: fa-Arab-IR
    (0x524900006b6b, 0x6b6b, 0x62617241, 0x5249),  // kk-IR: kk-Arab-IR
    (0x524900007a61, 0x7a61, 0x62617241, 0x5249),  // az-IR: az-Arab-IR
    (0x524b00000000, 0x6f6b, 0x65726f4b, 0x524b),  // und-KR: ko-Kore-KR
    (0x524d00000000, 0x7261, 0x62617241, 0x524d),  // und-MR: ar-Arab-MR
    (0x525000000000, 0x7365, 0x6e74614c, 0x5250),  // und-PR: es-Latn-PR
    (0x525300000000, 0x6c6e, 0x6e74614c, 0x5253),  // und-SR: nl-Latn-SR
    (0x52530000687a, 0x687a, 0x746e6148, 0x5253),  // zh-SR: zh-Hant-SR
    (0x525400000000, 0x7274, 0x6e74614c, 0x5254),  // und-TR: tr-Latn-TR
    (0x525400007273, 0x7273, 0x6e74614c, 0x5254),  // sr-TR: sr-Latn-TR
    (0x52540000796b, 0x796b, 0x6e74614c, 0x5254),  // ky-TR: ky-Latn-TR
    (0x534500000000, 0x7365, 0x6e74614c, 0x5345),  // und-ES: es-Latn-ES
    (0x534900000000, 0x7369, 0x6e74614c, 0x5349),  // und-IS: is-Latn-IS
    (0x534c00000000, 0x7473, 0x6e74614c, 0x534c),  // und-LS: st-Latn-LS
    (0x535000000000, 0x7261, 0x62617241, 0x5350),  // und-PS: ar-Arab-PS
    (0x535200000000, 0x7273, 0x6c727943, 0x5352),  // und-RS: sr-Cyrl-RS
    (0x535300000000, 0x7261, 0x62617241, 0x5353),  // und-SS: ar-Arab-SS
    (0x53550000687a, 0x687a, 0x746e6148, 0x5355),  // zh-US: zh-Hant-US
    (0x544100000000, 0x6564, 0x6e74614c, 0x5441),  // und-AT: de-Latn-AT
    (0x544500000000, 0x6d61, 0x69687445, 0x5445),  // und-ET: am-Ethi-ET
    (0x544700000000, 0x7365, 0x6e74614c, 0x5447),  // und-GT: es-Latn-GT
    (0x544900000000, 0x7469, 0x6e74614c, 0x5449),  // und-IT: it-Latn-IT
    (0x544c00000000, 0x746c, 0x6e74614c, 0x544c),  // und-LT: lt-Latn-LT
    (0x544d00000000, 0x746d, 0x6e74614c, 0x544d),  // und-MT: mt-Latn-MT
    (0x545000000000, 0x7470, 0x6e74614c, 0x5450),  // und-PT: pt-Latn-PT
    (0x545300000000, 0x7470, 0x6e74614c, 0x5453),  // und-ST: pt-Latn-ST
    (0x545900000000, 0x7266, 0x6e74614c, 0x5459),  // und-YT: fr-Latn-YT
    (0x55410000687a, 0x687a, 0x746e6148, 0x5541),  // zh-AU: zh-Hant-AU
    (0x554300000000, 0x7365, 0x6e74614c, 0x5543),  // und-CU: es-Latn-CU
    (0x554800000000, 0x7568, 0x6e74614c, 0x5548),  // und-HU: hu-Latn-HU
    (0x554c00000000, 0x7266, 0x6e74614c, 0x554c),  // und-LU: fr-Latn-LU
    (0x555200000000, 0x7572, 0x6c727943, 0x5552),  // und-RU: ru-Cyrl-RU
    (0x555200007273, 0x7273, 0x6e74614c, 0x5552),  // sr-RU: sr-Latn-RU
    (0x555200007a61, 0x7a61, 0x6c727943, 0x5552),  // az-RU: az-Cyrl-RU
    (0x564300000000, 0x7470, 0x6e74614c, 0x5643),  // und-CV: pt-Latn-CV
    (0x564c00000000, 0x766c, 0x6e74614c, 0x564c),  // und-LV: lv-Latn-LV
    (0x565300000000, 0x7365, 0x6e74614c, 0x5653),  // und-SV: es-Latn-SV
    (0x574100000000, 0x6c6e, 0x6e74614c, 0x5741),  // und-AW: nl-Latn-AW
    (0x574700000000, 0x7470, 0x6e74614c, 0x5747),  // und-GW: pt-Latn-GW
    (0x574b00000000, 0x7261, 0x62617241, 0x574b),  // und-KW: ar-Arab-KW
    (0x575200000000, 0x7772, 0x6e74614c, 0x5752),  // und-RW: rw-Latn-RW
    (0x575400000000, 0x687a, 0x746e6148, 0x5754),  // und-TW: zh-Hant-TW
    (0x57540000687a, 0x687a, 0x746e6148, 0x5754),  // zh-TW: zh-Hant-TW
    (0x584100000000, 0x7673, 0x6e74614c, 0x5841),  // und-AX: sv-Latn-AX
    (0x584d00000000, 0x7365, 0x6e74614c, 0x584d),  // und-MX: es-Latn-MX
    (0x594200000000, 0x6562, 0x6c727943, 0x5942),  // und-BY: be-Cyrl-BY
    (0x594300000000, 0x6c65, 0x6b657247, 0x5943),  // und-CY: el-Grek-CY
    (0x594c00000000, 0x7261, 0x62617241, 0x594c),  // und-LY: ar-Arab-LY
    (0x594d00000000, 0x736d, 0x6e74614c, 0x594d),  // und-MY: ms-Latn-MY
    (0x595300000000, 0x7261, 0x62617241, 0x5953),  // und-SY: ar-Arab-SY
    (0x595500000000, 0x7365, 0x6e74614c, 0x5955),  // und-UY: es-Latn-UY
    (0x5a4100000000, 0x7a61, 0x6e74614c, 0x5a41),  // und-AZ: az-Latn-AZ
    (0x5a4300000000, 0x7363, 0x6e74614c, 0x5a43),  // und-CZ: cs-Latn-CZ
    (0x5a4400000000, 0x7261, 0x62617241, 0x5a44),  // und-DZ: ar-Arab-DZ
    (0x5a4b00000000, 0x7572, 0x6c727943, 0x5a4b),  // und-KZ: ru-Cyrl-KZ
    (0x5a4b00006775, 0x6775, 0x6c727943, 0x5a4b),  // ug-KZ: ug-Cyrl-KZ
    (0x5a4d00000000, 0x7470, 0x6e74614c, 0x5a4d),  // und-MZ: pt-Latn-MZ
    (0x5a5400000000, 0x7773, 0x6e74614c, 0x5a54),  // und-TZ: sw-Latn-TZ
    (0x5a5500000000, 0x7a75, 0x6e74614c, 0x5a55),  // und-UZ: uz-Latn-UZ
    (0x39313400000000, 0x7365, 0x6e74614c, 0x393134),  // und-419: es-Latn-419
];

/// From a language and a script to a tag: the script in the high half of
/// the key, the language in the low half.
pub const LANG_SCRIPT: [Row; 86] = [
    (0x61626c4500000000, 0x7173, 0x61626c45, 0x4c41),  // und-Elba: sq-Elba-AL
    (0x61646e4b00000000, 0x6e6b, 0x61646e4b, 0x4e49),  // und-Knda: kn-Knda-IN
    (0x616d734f00000000, 0x6f73, 0x616d734f, 0x4f53),  // und-Osma: so-Osma-SO
    (0x616e614b00000000, 0x616a, 0x616e614b, 0x504a),  // und-Kana: ja-Kana-JP
    (0x6172614700000000, 0x6f77, 0x61726147, 0x4e53),  // und-Gara: wo-Gara-SN
    (0x6172694800000000, 0x616a, 0x61726948, 0x504a),  // und-Hira: ja-Hira-JP
    (0x6176614a00000000, 0x766a, 0x6176614a, 0x4449),  // und-Java: jv-Java-ID
    (0x6176654400000000, 0x6968, 0x61766544, 0x4e49),  // und-Deva: hi-Deva-IN
    (0x6176654400006473, 0x6473, 0x61766544, 0x4e49),  // sd-Deva: sd-Deva-IN
    (0x6179724f00000000, 0x726f, 0x6179724f, 0x4e49),  // und-Orya: or-Orya-IN
    (0x6261724100000000, 0x7261, 0x62617241, 0x4745),  // und-Arab: ar-Arab-EG
    (0x6261724100006170, 0x6170, 0x62617241, 0x4b50),  // pa-Arab: pa-Arab-PK
    (0x6261724100006774, 0x6774, 0x62617241, 0x4b50),  // tg-Arab: tg-Arab-PK
    (0x6261724100006b6b, 0x6b6b, 0x62617241, 0x4e43),  // kk-Arab: kk-Arab-CN
    (0x626172410000756b, 0x756b, 0x62617241, 0x5149),  // ku-Arab: ku-Arab-IQ
    (0x626172410000796b, 0x796b, 0x62617241, 0x4e43),  // ky-Arab: ky-Arab-CN
    (0x6261724100007a61, 0x7a61, 0x62617241, 0x5249),  // az-Arab: az-Arab-IR
    (0x6261724100007a75, 0x7a75, 0x62617241, 0x4641),  // uz-Arab: uz-Arab-AF
    (0x626e614800000000, 0x687a, 0x626e6148, 0x5754),  // und-Hanb: zh-Hanb-TW
    (0x626e61480000687a, 0x687a, 0x626e6148, 0x5754),  // zh-Hanb: zh-Hanb-TW
    (0x6372795300000000, 0x727973, 0x63727953, 0x5149),  // und-Syrc: syr-Syrc-IQ
    (0x6464695300000000, 0x6173, 0x64646953, 0x4e49),  // und-Sidd: sa-Sidd-IN
    (0x646e614e00000000, 0x6173, 0x646e614e, 0x4e49),  // und-Nand: sa-Nand-IN
    (0x646e695300000000, 0x6473, 0x646e6953, 0x4e49),  // und-Sind: sd-Sind-IN
    (0x646e695300006473, 0x6473, 0x646e6953, 0x4e49),  // sd-Sind: sd-Sind-IN
    (0x646e755300000000, 0x7573, 0x646e7553, 0x4449),  // und-Sund: su-Sund-ID
    (0x6472685300000000, 0x6173, 0x64726853, 0x4e49),  // und-Shrd: sa-Shrd-IN
    (0x65726f4b00000000, 0x6f6b, 0x65726f4b, 0x524b),  // und-Kore: ko-Kore-KR
    (0x676c675400000000, 0x6c6966, 0x676c6754, 0x4850),  // und-Tglg: fil-Tglg-PH
    (0x676e614800000000, 0x6f6b, 0x676e6148, 0x524b),  // und-Hang: ko-Hang-KR
    (0x676e654200000000, 0x6e62, 0x676e6542, 0x4442),  // und-Beng: bn-Beng-BD
    (0x676e6f4d00000000, 0x6e6d, 0x676e6f4d, 0x4e43),  // und-Mong: mn-Mong-CN
    (0x676e6f4d00006e6d, 0x6e6d, 0x676e6f4d, 0x4e43),  // mn-Mong: mn-Mong-CN
    (0x676e754800000000, 0x7568, 0x676e7548, 0x5548),  // und-Hung: hu-Hung-HU
    (0x6774755400000000, 0x6173, 0x67747554, 0x4e49),  // und-Tutg: sa-Tutg-IN
    (0x686e695300000000, 0x6973, 0x686e6953, 0x4b4c),  // und-Sinh: si-Sinh-LK
    (0x6872695400000000, 0x69616d, 0x68726954, 0x4e49),  // und-Tirh: mai-Tirh-IN
    (0x6874695600000000, 0x7173, 0x68746956, 0x4c41),  // und-Vith: sq-Vith-AL
    (0x6961685400000000, 0x6874, 0x69616854, 0x4854),  // und-Thai: th-Thai-TH
    (0x6961724200000000, 0x7266, 0x69617242, 0x5246),  // und-Brai: fr-Brai-FR
    (0x69646f4d00000000, 0x726d, 0x69646f4d, 0x4e49),  // und-Modi: mr-Modi-IN
    (0x6965744d00000000, 0x696e6d, 0x6965744d, 0x4e49),  // und-Mtei: mni-Mtei-IN
    (0x6968744500000000, 0x6d61, 0x69687445, 0x5445),  // und-Ethi: am-Ethi-ET
    (0x6968744b00000000, 0x6f6862, 0x6968744b, 0x4e49),  // und-Kthi: bho-Kthi-IN
    (0x6969695900000000, 0x6969, 0x69696959, 0x4e43),  // und-Yiii: ii-Yiii-CN
    (0x696e614800000000, 0x687a, 0x696e6148, 0x4e43),  // und-Hani: zh-Hani-CN
    (0x697a655900000000, 0x756b, 0x697a6559, 0x4547),  // und-Yezi: ku-Yezi-GE
    (0x697a65590000756b, 0x756b, 0x697a6559, 0x4547),  // ku-Yezi: ku-Yezi-GE
    (0x6a68614d00000000, 0x6968, 0x6a68614d, 0x4e49),  // und-Mahj: hi-Mahj-IN
    (0x6a6f684b00000000, 0x6473, 0x6a6f684b, 0x4e49),  // und-Khoj: sd-Khoj-IN
    (0x6a6f684b00006473, 0x6473, 0x6a6f684b, 0x4e49),  // sd-Khoj: sd-Khoj-IN
    (0x6b636c4f00000000, 0x746173, 0x6b636c4f, 0x4e49),  // und-Olck: sat-Olck-IN
    (0x6b65724700000000, 0x6c65, 0x6b657247, 0x5247),  // und-Grek: el-Grek-GR
    (0x6c6d615400000000, 0x6174, 0x6c6d6154, 0x4e49),  // und-Taml: ta-Taml-IN
    (0x6c70754400000000, 0x7266, 0x6c707544, 0x5246),  // und-Dupl: fr-Dupl-FR
    (0x6c72794300000000, 0x7572, 0x6c727943, 0x5552),  // und-Cyrl: ru-Cyrl-RU
    (0x6c72794300006775, 0x6775, 0x6c727943, 0x5a4b),  // ug-Cyrl: ug-Cyrl-KZ
    (0x6d6c644100000000, 0x6666, 0x6d6c6441, 0x4e47),  // und-Adlm: ff-Adlm-GN
    (0x6d6c644100006666, 0x6666, 0x6d6c6441, 0x4e47),  // ff-Adlm: ff-Adlm-GN
    (0x6d796c4d00000000, 0x6c6d, 0x6d796c4d, 0x4e49),  // und-Mlym: ml-Mlym-IN
    (0x6e61704a00000000, 0x616a, 0x6e61704a, 0x504a),  // und-Jpan: ja-Jpan-JP
    (0x6e61724700000000, 0x6173, 0x6e617247, 0x4e49),  // und-Gran: sa-Gran-IN
    (0x6e6d724100000000, 0x7968, 0x6e6d7241, 0x4d41),  // und-Armn: hy-Armn-AM
    (0x6e74614c0000796b, 0x796b, 0x6e74614c, 0x5254),  // ky-Latn: ky-Latn-TR
    (0x6f6d614a00000000, 0x6f6b, 0x6f6d614a, 0x524b),  // und-Jamo: ko-Jamo-KR
    (0x6f6f614c00000000, 0x6f6c, 0x6f6f614c, 0x414c),  // und-Laoo: lo-Laoo-LA
    (0x6f706f4200000000, 0x687a, 0x6f706f42, 0x5754),  // und-Bopo: zh-Bopo-TW
    (0x6f706f420000687a, 0x687a, 0x6f706f42, 0x5754),  // zh-Bopo: zh-Bopo-TW
    (0x7262654800000000, 0x6568, 0x72626548, 0x4c49),  // und-Hebr: he-Hebr-IL
    (0x72646f5400000000, 0x7173, 0x72646f54, 0x4c41),  // und-Todr: sq-Todr-AL
    (0x7265684300000000, 0x726863, 0x72656843, 0x5355),  // und-Cher: chr-Cher-US
    (0x72676f4400000000, 0x696f64, 0x72676f44, 0x4e49),  // und-Dogr: doi-Dogr-IN
    (0x726a754700000000, 0x7567, 0x726a7547, 0x4e49),  // und-Gujr: gu-Gujr-IN
    (0x726b615400000000, 0x696f64, 0x726b6154, 0x4e49),  // und-Takr: doi-Takr-IN
    (0x726d684b00000000, 0x6d6b, 0x726d684b, 0x484b),  // und-Khmr: km-Khmr-KH
    (0x726d794d00000000, 0x796d, 0x726d794d, 0x4d4d),  // und-Mymr: my-Mymr-MM
    (0x726f654700000000, 0x616b, 0x726f6547, 0x4547),  // und-Geor: ka-Geor-GE
    (0x736b684200000000, 0x6173, 0x736b6842, 0x4e49),  // und-Bhks: sa-Bhks-IN
    (0x736e614800000000, 0x687a, 0x736e6148, 0x4e43),  // und-Hans: zh-Hans-CN
    (0x736e614800657579, 0x657579, 0x736e6148, 0x4e43),  // yue-Hans: yue-Hans-CN
    (0x746e614800000000, 0x687a, 0x746e6148, 0x5754),  // und-Hant: zh-Hant-TW
    (0x746e61480000687a, 0x687a, 0x746e6148, 0x5754),  // zh-Hant: zh-Hant-TW
    (0x756c655400000000, 0x6574, 0x756c6554, 0x4e49),  // und-Telu: te-Telu-IN
    (0x7572754700000000, 0x6170, 0x75727547, 0x4e49),  // und-Guru: pa-Guru-IN
    (0x7761685300000000, 0x6e65, 0x77616853, 0x4247),  // und-Shaw: en-Shaw-GB
    (0x7761685300006e65, 0x6e65, 0x77616853, 0x4247),  // en-Shaw: en-Shaw-GB
];

/// From a language to a tag: the language is the key.
pub const LANG_ONLY: [Row; 158] = [
    (0x0, 0x6e65, 0x6e74614c, 0x5355),  // und: en-Latn-US
    (0x6163, 0x6163, 0x6e74614c, 0x5345),  // ca: ca-Latn-ES
    (0x6164, 0x6164, 0x6e74614c, 0x4b44),  // da: da-Latn-DK
    (0x6166, 0x6166, 0x62617241, 0x5249),  // fa: fa-Arab-IR
    (0x6167, 0x6167, 0x6e74614c, 0x4549),  // ga: ga-Latn-IE
    (0x6168, 0x6168, 0x6e74614c, 0x474e),  // ha: ha-Latn-NG
    (0x6169, 0x6169, 0x6e74614c, 0x313030),  // ia: ia-Latn-001
    (0x616a, 0x616a, 0x6e61704a, 0x504a),  // ja: ja-Jpan-JP
    (0x616b, 0x616b, 0x726f6547, 0x4547),  // ka: ka-Geor-GE
    (0x6170, 0x6170, 0x75727547, 0x4e49),  // pa: pa-Guru-IN
    (0x6173, 0x6173, 0x61766544, 0x4e49),  // sa: sa-Deva-IN
    (0x6174, 0x6174, 0x6c6d6154, 0x4e49),  // ta: ta-Taml-IN
    (0x617a, 0x617a, 0x6e74614c, 0x4e43),  // za: za-Latn-CN
    (0x626c, 0x626c, 0x6e74614c, 0x554c),  // lb: lb-Latn-LU
    (0x636f, 0x636f, 0x6e74614c, 0x5246),  // oc: oc-Latn-FR
    (0x6373, 0x6373, 0x6e74614c, 0x5449),  // sc: sc-Latn-IT
    (0x6467, 0x6467, 0x6e74614c, 0x4247),  // gd: gd-Latn-GB
    (0x6469, 0x6469, 0x6e74614c, 0x4449),  // id: id-Latn-ID
    (0x6473, 0x6473, 0x62617241, 0x4b50),  // sd: sd-Arab-PK
    (0x6562, 0x6562, 0x6c727943, 0x5942),  // be: be-Cyrl-BY
    (0x6564, 0x6564, 0x6e74614c, 0x4544),  // de: de-Latn-DE
    (0x6565, 0x6565, 0x6e74614c, 0x4847),  // ee: ee-Latn-GH
    (0x6568, 0x6568, 0x72626548, 0x4c49),  // he: he-Hebr-IL
    (0x6569, 0x6569, 0x6e74614c, 0x4545),  // ie: ie-Latn-EE
    (0x656e, 0x656e, 0x61766544, 0x504e),  // ne: ne-Deva-NP
    (0x6574, 0x6574, 0x756c6554, 0x4e49),  // te: te-Telu-IN
    (0x6661, 0x6661, 0x6e74614c, 0x415a),  // af: af-Latn-ZA
    (0x6666, 0x6666, 0x6e74614c, 0x4e53),  // ff: ff-Latn-SN
    (0x6762, 0x6762, 0x6c727943, 0x4742),  // bg: bg-Cyrl-BG
    (0x6769, 0x6769, 0x6e74614c, 0x474e),  // ig: ig-Latn-NG
    (0x6774, 0x6774, 0x6c727943, 0x4a54),  // tg: tg-Cyrl-TJ
    (0x6775, 0x6775, 0x62617241, 0x4e43),  // ug: ug-Arab-CN
    (0x6874, 0x6874, 0x69616854, 0x4854),  // th: th-Thai-TH
    (0x6878, 0x6878, 0x6e74614c, 0x415a),  // xh: xh-Latn-ZA
    (0x687a, 0x687a, 0x736e6148, 0x4e43),  // zh: zh-Hans-CN
    (0x6966, 0x6966, 0x6e74614c, 0x4946),  // fi: fi-Latn-FI
    (0x6968, 0x6968, 0x61766544, 0x4e49),  // hi: hi-Deva-IN
    (0x6969, 0x6969, 0x69696959, 0x4e43),  // ii: ii-Yiii-CN
    (0x696d, 0x696d, 0x6e74614c, 0x5a4e),  // mi: mi-Latn-NZ
    (0x6973, 0x6973, 0x686e6953, 0x4b4c),  // si: si-Sinh-LK
    (0x6974, 0x6974, 0x69687445, 0x5445),  // ti: ti-Ethi-ET
    (0x6976, 0x6976, 0x6e74614c, 0x4e56),  // vi: vi-Latn-VN
    (0x6979, 0x6979, 0x72626548, 0x4155),  // yi: yi-Hebr-UA
    (0x6b61, 0x6b61, 0x6e74614c, 0x4847),  // ak: ak-Latn-GH
    (0x6b6b, 0x6b6b, 0x6c727943, 0x5a4b),  // kk: kk-Cyrl-KZ
    (0x6b6d, 0x6b6d, 0x6c727943, 0x4b4d),  // mk: mk-Cyrl-MK
    (0x6b73, 0x6b73, 0x6e74614c, 0x4b53),  // sk: sk-Latn-SK
    (0x6b74, 0x6b74, 0x6e74614c, 0x4d54),  // tk: tk-Latn-TM
    (0x6b75, 0x6b75, 0x6c727943, 0x4155),  // uk: uk-Cyrl-UA
    (0x6c65, 0x6c65, 0x6b657247, 0x5247),  // el: el-Grek-GR
    (0x6c67, 0x6c67, 0x6e74614c, 0x5345),  // gl: gl-Latn-ES
    (0x6c6d, 0x6c6d, 0x6d796c4d, 0x4e49),  // ml: ml-Mlym-IN
    (0x6c6e, 0x6c6e, 0x6e74614c, 0x4c4e),  // nl: nl-Latn-NL
    (0x6c70, 0x6c70, 0x6e74614c, 0x4c50),  // pl: pl-Latn-PL
    (0x6c73, 0x6c73, 0x6e74614c, 0x4953),  // sl: sl-Latn-SI
    (0x6d61, 0x6d61, 0x69687445, 0x5445),  // am: am-Ethi-ET
    (0x6d6b, 0x6d6b, 0x726d684b, 0x484b),  // km: km-Khmr-KH
    (0x6d6f, 0x6d6f, 0x6e74614c, 0x5445),  // om: om-Latn-ET
    (0x6d72, 0x6d72, 0x6e74614c, 0x4843),  // rm: rm-Latn-CH
    (0x6e62, 0x6e62, 0x676e6542, 0x4442),  // bn: bn-Beng-BD
    (0x6e65, 0x6e65, 0x6e74614c, 0x5355),  // en: en-Latn-US
    (0x6e6b, 0x6e6b, 0x61646e4b, 0x4e49),  // kn: kn-Knda-IN
    (0x6e6d, 0x6e6d, 0x6c727943, 0x4e4d),  // mn: mn-Cyrl-MN
    (0x6e6e, 0x6e6e, 0x6e74614c, 0x4f4e),  // nn: nn-Latn-NO
    (0x6e74, 0x6e74, 0x6e74614c, 0x415a),  // tn: tn-Latn-ZA
    (0x6f65, 0x6f65, 0x6e74614c, 0x313030),  // eo: eo-Latn-001
    (0x6f66, 0x6f66, 0x6e74614c, 0x4f46),  // fo: fo-Latn-FO
    (0x6f6b, 0x6f6b, 0x65726f4b, 0x524b),  // ko: ko-Kore-KR
    (0x6f6c, 0x6f6c, 0x6f6f614c, 0x414c),  // lo: lo-Laoo-LA
    (0x6f6e, 0x6f6e, 0x6e74614c, 0x4f4e),  // no: no-Latn-NO
    (0x6f72, 0x6f72, 0x6e74614c, 0x4f52),  // ro: ro-Latn-RO
    (0x6f73, 0x6f73, 0x6e74614c, 0x4f53),  // so: so-Latn-SO
    (0x6f74, 0x6f74, 0x6e74614c, 0x4f54),  // to: to-Latn-TO
    (0x6f77, 0x6f77, 0x6e74614c, 0x4e53),  // wo: wo-Latn-SN
    (0x6f79, 0x6f79, 0x6e74614c, 0x474e),  // yo: yo-Latn-NG
    (0x7173, 0x7173, 0x6e74614c, 0x4c41),  // sq: sq-Latn-AL
    (0x7261, 0x7261, 0x62617241, 0x4745),  // ar: ar-Arab-EG
    (0x7262, 0x7262, 0x6e74614c, 0x5246),  // br: br-Latn-FR
    (0x7266, 0x7266, 0x6e74614c, 0x5246),  // fr: fr-Latn-FR
    (0x7268, 0x7268, 0x6e74614c, 0x5248),  // hr: hr-Latn-HR
    (0x726d, 0x726d, 0x61766544, 0x4e49),  // mr: mr-Deva-IN
    (0x726f, 0x726f, 0x6179724f, 0x4e49),  // or: or-Orya-IN
    (0x7273, 0x7273, 0x6c727943, 0x5352),  // sr: sr-Cyrl-RS
    (0x7274, 0x7274, 0x6e74614c, 0x5254),  // tr: tr-Latn-TR
    (0x7275, 0x7275, 0x62617241, 0x4b50),  // ur: ur-Arab-PK
    (0x7361, 0x7361, 0x676e6542, 0x4e49),  // as: as-Beng-IN
    (0x7362, 0x7362, 0x6e74614c, 0x4142),  // bs: bs-Latn-BA
    (0x7363, 0x7363, 0x6e74614c, 0x5a43),  // cs: cs-Latn-CZ
    (0x7365, 0x7365, 0x6e74614c, 0x5345),  // es: es-Latn-ES
    (0x7369, 0x7369, 0x6e74614c, 0x5349),  // is: is-Latn-IS
    (0x736b, 0x736b, 0x62617241, 0x4e49),  // ks: ks-Arab-IN
    (0x736d, 0x736d, 0x6e74614c, 0x594d),  // ms: ms-Latn-MY
    (0x7370, 0x7370, 0x62617241, 0x4641),  // ps: ps-Arab-AF
    (0x7465, 0x7465, 0x6e74614c, 0x4545),  // et: et-Latn-EE
    (0x7469, 0x7469, 0x6e74614c, 0x5449),  // it: it-Latn-IT
    (0x746c, 0x746c, 0x6e74614c, 0x544c),  // lt: lt-Latn-LT
    (0x746d, 0x746d, 0x6e74614c, 0x544d),  // mt: mt-Latn-MT
    (0x7470, 0x7470, 0x6e74614c, 0x5242),  // pt: pt-Latn-BR
    (0x7473, 0x7473, 0x6e74614c, 0x415a),  // st: st-Latn-ZA
    (0x7474, 0x7474, 0x6c727943, 0x5552),  // tt: tt-Cyrl-RU
    (0x7565, 0x7565, 0x6e74614c, 0x5345),  // eu: eu-Latn-ES
    (0x7567, 0x7567, 0x726a7547, 0x4e49),  // gu: gu-Gujr-IN
    (0x7568, 0x7568, 0x6e74614c, 0x5548),  // hu: hu-Latn-HU
    (0x756b, 0x756b, 0x6e74614c, 0x5254),  // ku: ku-Latn-TR
    (0x7571, 0x7571, 0x6e74614c, 0x4550),  // qu: qu-Latn-PE
    (0x7572, 0x7572, 0x6c727943, 0x5552),  // ru: ru-Cyrl-RU
    (0x7573, 0x7573, 0x6e74614c, 0x4449),  // su: su-Latn-ID
    (0x757a, 0x757a, 0x6e74614c, 0x415a),  // zu: zu-Latn-ZA
    (0x7663, 0x7663, 0x6c727943, 0x5552),  // cv: cv-Cyrl-RU
    (0x766a, 0x766a, 0x6e74614c, 0x4449),  // jv: jv-Latn-ID
    (0x766c, 0x766c, 0x6e74614c, 0x564c),  // lv: lv-Latn-LV
    (0x7673, 0x7673, 0x6e74614c, 0x4553),  // sv: sv-Latn-SE
    (0x7772, 0x7772, 0x6e74614c, 0x5752),  // rw: rw-Latn-RW
    (0x7773, 0x7773, 0x6e74614c, 0x5a54),  // sw: sw-Latn-TZ
    (0x7963, 0x7963, 0x6e74614c, 0x4247),  // cy: cy-Latn-GB
    (0x7966, 0x7966, 0x6e74614c, 0x4c4e),  // fy: fy-Latn-NL
    (0x7968, 0x7968, 0x6e6d7241, 0x4d41),  // hy: hy-Armn-AM
    (0x796b, 0x796b, 0x6c727943, 0x474b),  // ky: ky-Cyrl-KG
    (0x796d, 0x796d, 0x726d794d, 0x4d4d),  // my: my-Mymr-MM
    (0x7a61, 0x7a61, 0x6e74614c, 0x5a41),  // az: az-Latn-AZ
    (0x7a75, 0x7a75, 0x6e74614c, 0x5a55),  // uz: uz-Latn-UZ
    (0x616167, 0x616167, 0x6e74614c, 0x4847),  // gaa: gaa-Latn-GH
    (0x61656b, 0x61656b, 0x6e74614c, 0x5643),  // kea: kea-Latn-CV
    (0x626563, 0x626563, 0x6e74614c, 0x4850),  // ceb: ceb-Latn-PH
    (0x627364, 0x627364, 0x6e74614c, 0x4544),  // dsb: dsb-Latn-DE
    (0x627368, 0x627368, 0x6e74614c, 0x4544),  // hsb: hsb-Latn-DE
    (0x636576, 0x636576, 0x6e74614c, 0x5449),  // vec: vec-Latn-IT
    (0x636762, 0x636762, 0x61766544, 0x4e49),  // bgc: bgc-Deva-IN
    (0x657579, 0x657579, 0x746e6148, 0x4b48),  // yue: yue-Hant-HK
    (0x677270, 0x677270, 0x6e74614c, 0x4c50),  // prg: prg-Latn-PL
    (0x686173, 0x686173, 0x6c727943, 0x5552),  // sah: sah-Cyrl-RU
    (0x69616d, 0x69616d, 0x61766544, 0x4e49),  // mai: mai-Deva-IN
    (0x696e6d, 0x696e6d, 0x676e6542, 0x4e49),  // mni: mni-Beng-IN
    (0x696f64, 0x696f64, 0x61766544, 0x4e49),  // doi: doi-Deva-IN
    (0x6a6172, 0x6a6172, 0x61766544, 0x4e49),  // raj: raj-Deva-IN
    (0x6a696c, 0x6a696c, 0x6e74614c, 0x5449),  // lij: lij-Latn-IT
    (0x6b6f6b, 0x6b6f6b, 0x61766544, 0x4e49),  // kok: kok-Deva-IN
    (0x6c6162, 0x6c6162, 0x62617241, 0x4b50),  // bal: bal-Arab-PK
    (0x6c6966, 0x6c6966, 0x6e74614c, 0x4850),  // fil: fil-Latn-PH
    (0x6c7279, 0x6c7279, 0x6e74614c, 0x5242),  // yrl: yrl-Latn-BR
    (0x6c7a73, 0x6c7a73, 0x6e74614c, 0x4c50),  // szl: szl-Latn-PL
    (0x6d6370, 0x6d6370, 0x6e74614c, 0x474e),  // pcm: pcm-Latn-NG
    (0x6f6862, 0x6f6862, 0x61766544, 0x4e49),  // bho: bho-Deva-IN
    (0x6f6c62, 0x6f6c62, 0x6e74614c, 0x4a42),  // blo: blo-Latn-BJ
    (0x6f6d6c, 0x6f6d6c, 0x6e74614c, 0x5449),  // lmo: lmo-Latn-IT
    (0x6f716e, 0x6f716e, 0x6f6f6b4e, 0x4e47),  // nqo: nqo-Nkoo-GN
    (0x6f736e, 0x6f736e, 0x6e74614c, 0x415a),  // nso: nso-Latn-ZA
    (0x70676b, 0x70676b, 0x6e74614c, 0x5242),  // kgp: kgp-Latn-BR
    (0x726863, 0x726863, 0x72656843, 0x5355),  // chr: chr-Cher-US
    (0x726e78, 0x726e78, 0x61766544, 0x4e49),  // xnr: xnr-Deva-IN
    (0x727973, 0x727973, 0x63727953, 0x5149),  // syr: syr-Syrc-IQ
    (0x73646e, 0x73646e, 0x6e74614c, 0x4544),  // nds: nds-Latn-DE
    (0x746173, 0x746173, 0x6b636c4f, 0x4e49),  // sat: sat-Olck-IN
    (0x747361, 0x747361, 0x6e74614c, 0x5345),  // ast: ast-Latn-ES
    (0x76786b, 0x76786b, 0x6e74614c, 0x4e49),  // kxv: kxv-Latn-IN
    (0x776d76, 0x776d76, 0x6e74614c, 0x5a4d),  // vmw: vmw-Latn-MZ
    (0x777363, 0x777363, 0x736e6143, 0x4143),  // csw: csw-Cans-CA
    (0x787262, 0x787262, 0x61766544, 0x4e49),  // brx: brx-Deva-IN
];

/// The rows of `SCRIPT_REGION`.
#[verifier::opaque]
pub open spec fn script_region() -> Seq<Row> {
    SCRIPT_REGION@
}

/// The rows of `LANG_REGION`.
#[verifier::opaque]
pub open spec fn lang_region() -> Seq<Row> {
    LANG_REGION@
}

/// The rows of `LANG_SCRIPT`.
#[verifier::opaque]
pub open spec fn lang_script() -> Seq<Row> {
    LANG_SCRIPT@
}

/// The rows of `LANG_ONLY`.
#[verifier::opaque]
pub open spec fn lang_only() -> Seq<Row> {
    LANG_ONLY@
}

} // verus!
