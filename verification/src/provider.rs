//! The values that the provider label takes.

use vstd::prelude::*;

verus! {

/// Anthropic messages.
pub const ANTHROPIC: &'static str = "anthropic";

/// OpenAI chat completions.
pub const OPENAI_CHAT: &'static str = "openai_chat";

/// OpenAI responses.
pub const OPENAI_RESPONSES: &'static str = "openai_responses";

/// The vocabulary of the provider label.
pub open spec fn vocabulary() -> Seq<Seq<char>> {
    seq![ANTHROPIC@, OPENAI_CHAT@, OPENAI_RESPONSES@]
}

/// The providers have three different label values.
pub proof fn law_providers_are_distinct()
    ensures
        vocabulary() == seq!["anthropic"@, "openai_chat"@, "openai_responses"@],
        vocabulary().len() == 3,
        vocabulary().no_duplicates(),
{
    reveal_strlit("anthropic");
    reveal_strlit("openai_chat");
    reveal_strlit("openai_responses");
    assert(ANTHROPIC@.len() == 9);
    assert(OPENAI_CHAT@.len() == 11);
    assert(OPENAI_RESPONSES@.len() == 16);
}

/// The hash of `anthropic`.
proof fn lemma_hash_of_anthropic()
    ensures
        crate::prom::label_value_hash(ANTHROPIC@) == 0x2524_b426_1996_11b3,
{
    reveal_strlit("anthropic");
    let bytes = vstd::utf8::encode_utf8(ANTHROPIC@);
    vstd::utf8::is_ascii_chars_encode_utf8(ANTHROPIC@);
    lemma_hash_of_one_more_byte(bytes, 0);
    lemma_hash_of_one_more_byte(bytes, 1);
    lemma_hash_of_one_more_byte(bytes, 2);
    lemma_hash_of_one_more_byte(bytes, 3);
    lemma_hash_of_one_more_byte(bytes, 4);
    lemma_hash_of_one_more_byte(bytes, 5);
    lemma_hash_of_one_more_byte(bytes, 6);
    lemma_hash_of_one_more_byte(bytes, 7);
    lemma_hash_of_one_more_byte(bytes, 8);
    assert(crate::prom::fnv1a_step(0xcbf2_9ce4_8422_2325, 97) == 0xaf63_dc4c_8601_ec8c) by (bit_vector);
    assert(crate::prom::fnv1a_step(0xaf63_dc4c_8601_ec8c, 110) == 0x089c_3807_b545_8406) by (bit_vector);
    assert(crate::prom::fnv1a_step(0x089c_3807_b545_8406, 116) == 0xe6f7_a719_0520_0db6) by (bit_vector);
    assert(crate::prom::fnv1a_step(0xe6f7_a719_0520_0db6, 104) == 0x96de_cd83_b577_903a) by (bit_vector);
    assert(crate::prom::fnv1a_step(0x96de_cd83_b577_903a, 114) == 0xd427_7ecd_5a2a_2a58) by (bit_vector);
    assert(crate::prom::fnv1a_step(0xd427_7ecd_5a2a_2a58, 111) == 0xa946_adf0_35a5_bb75) by (bit_vector);
    assert(crate::prom::fnv1a_step(0xa946_adf0_35a5_bb75, 112) == 0x48d4_942b_289c_c97f) by (bit_vector);
    assert(crate::prom::fnv1a_step(0x48d4_942b_289c_c97f, 105) == 0x5e00_db56_0269_b062) by (bit_vector);
    assert(crate::prom::fnv1a_step(0x5e00_db56_0269_b062, 99) == 0x2524_b426_1996_11b3) by (bit_vector);
    assert(bytes.take(9) =~= bytes);
}

/// The hash of `openai_`, the prefix that two label values share.
proof fn lemma_hash_of_openai_prefix(bytes: Seq<u8>)
    requires
        bytes.len() >= 7,
        bytes[0] == 111,
        bytes[1] == 112,
        bytes[2] == 101,
        bytes[3] == 110,
        bytes[4] == 97,
        bytes[5] == 105,
        bytes[6] == 95,
    ensures
        crate::prom::fnv1a(bytes.take(7)) == 0x3e09_d6cf_f4bd_ab54,
{
    lemma_hash_of_one_more_byte(bytes, 0);
    lemma_hash_of_one_more_byte(bytes, 1);
    lemma_hash_of_one_more_byte(bytes, 2);
    lemma_hash_of_one_more_byte(bytes, 3);
    lemma_hash_of_one_more_byte(bytes, 4);
    lemma_hash_of_one_more_byte(bytes, 5);
    lemma_hash_of_one_more_byte(bytes, 6);
    assert(crate::prom::fnv1a_step(0xcbf2_9ce4_8422_2325, 111) == 0xaf63_e24c_8601_f6be) by (bit_vector);
    assert(crate::prom::fnv1a_step(0xaf63_e24c_8601_f6be, 112) == 0x08b0_5607_b556_600a) by (bit_vector);
    assert(crate::prom::fnv1a_step(0x08b0_5607_b556_600a, 101) == 0x1a02_9e19_21c5_dc9d) by (bit_vector);
    assert(crate::prom::fnv1a_step(0x1a02_9e19_21c5_dc9d, 110) == 0xf84f_97b4_6336_70e9) by (bit_vector);
    assert(crate::prom::fnv1a_step(0xf84f_97b4_6336_70e9, 97) == 0x25af_4f84_9581_3718) by (bit_vector);
    assert(crate::prom::fnv1a_step(0x25af_4f84_9581_3718, 105) == 0x8a1b_8f4a_0a91_3503) by (bit_vector);
    assert(crate::prom::fnv1a_step(0x8a1b_8f4a_0a91_3503, 95) == 0x3e09_d6cf_f4bd_ab54) by (bit_vector);
}

/// The hash of `openai_chat`.
proof fn lemma_hash_of_openai_chat()
    ensures
        crate::prom::label_value_hash(OPENAI_CHAT@) == 0x2992_fa04_256f_19d2,
{
    reveal_strlit("openai_chat");
    let bytes = vstd::utf8::encode_utf8(OPENAI_CHAT@);
    vstd::utf8::is_ascii_chars_encode_utf8(OPENAI_CHAT@);
    lemma_hash_of_openai_prefix(bytes);
    lemma_hash_of_one_more_byte(bytes, 7);
    lemma_hash_of_one_more_byte(bytes, 8);
    lemma_hash_of_one_more_byte(bytes, 9);
    lemma_hash_of_one_more_byte(bytes, 10);
    assert(crate::prom::fnv1a_step(0x3e09_d6cf_f4bd_ab54, 99) == 0x2863_3a5c_de49_ee75) by (bit_vector);
    assert(crate::prom::fnv1a_step(0x2863_3a5c_de49_ee75, 104) == 0xea8a_48cd_b79f_9b47) by (bit_vector);
    assert(crate::prom::fnv1a_step(0xea8a_48cd_b79f_9b47, 97) == 0x2894_db8f_0434_a192) by (bit_vector);
    assert(crate::prom::fnv1a_step(0x2894_db8f_0434_a192, 116) == 0x2992_fa04_256f_19d2) by (bit_vector);
    assert(bytes.take(11) =~= bytes);
}

/// The hash of `openai_responses`.
proof fn lemma_hash_of_openai_responses()
    ensures
        crate::prom::label_value_hash(OPENAI_RESPONSES@) == 0xd0db_2141_b2a8_d320,
{
    reveal_strlit("openai_responses");
    let bytes = vstd::utf8::encode_utf8(OPENAI_RESPONSES@);
    vstd::utf8::is_ascii_chars_encode_utf8(OPENAI_RESPONSES@);
    lemma_hash_of_openai_prefix(bytes);
    lemma_hash_of_one_more_byte(bytes, 7);
    lemma_hash_of_one_more_byte(bytes, 8);
    lemma_hash_of_one_more_byte(bytes, 9);
    lemma_hash_of_one_more_byte(bytes, 10);
    lemma_hash_of_one_more_byte(bytes, 11);
    lemma_hash_of_one_more_byte(bytes, 12);
    lemma_hash_of_one_more_byte(bytes, 13);
    lemma_hash_of_one_more_byte(bytes, 14);
    lemma_hash_of_one_more_byte(bytes, 15);
    assert(crate::prom::fnv1a_step(0x3e09_d6cf_f4bd_ab54, 114) == 0x2863_295c_de49_d192) by (bit_vector);
    assert(crate::prom::fnv1a_step(0x2863_295c_de49_d192, 101) == 0xea51_3fcd_b76f_c6b5) by (bit_vector);
    assert(crate::prom::fnv1a_step(0xea51_3fcd_b76f_c6b5, 115) == 0x97d6_308e_b2ee_c272) by (bit_vector);
    assert(crate::prom::fnv1a_step(0x97d6_308e_b2ee_c272, 112) == 0xefb6_847a_0bb3_a966) by (bit_vector);
    assert(crate::prom::fnv1a_step(0xefb6_847a_0bb3_a966, 111) == 0x06cc_2461_e248_3a4b) by (bit_vector);
    assert(crate::prom::fnv1a_step(0x06cc_2461_e248_3a4b, 110) == 0xd51b_f753_80ba_ccdf) by (bit_vector);
    assert(crate::prom::fnv1a_step(0xd51b_f753_80ba_ccdf, 115) == 0xd951_eee3_bd69_c844) by (bit_vector);
    assert(crate::prom::fnv1a_step(0xd951_eee3_bd69_c844, 101) == 0xb001_0dfa_dabf_1013) by (bit_vector);
    assert(crate::prom::fnv1a_step(0xb001_0dfa_dabf_1013, 115) == 0xd0db_2141_b2a8_d320) by (bit_vector);
    assert(bytes.take(16) =~= bytes);
}

/// One more byte is mixed into the hash of the bytes before it.
proof fn lemma_hash_of_one_more_byte(bytes: Seq<u8>, n: int)
    requires
        0 <= n < bytes.len(),
    ensures
        crate::prom::fnv1a(bytes.take(n + 1)) == crate::prom::fnv1a_step(
            crate::prom::fnv1a(bytes.take(n)),
            bytes[n],
        ),
{
    assert(bytes.take(n + 1).drop_last() =~= bytes.take(n));
}

/// The label values of different providers have different hashes.
pub proof fn law_provider_hashes_are_distinct()
    ensures
        forall|i: int, j: int|
            0 <= i < vocabulary().len() && 0 <= j < vocabulary().len() && i != j
                ==> crate::prom::label_value_hash(vocabulary()[i])
                != crate::prom::label_value_hash(vocabulary()[j]),
{
    lemma_hash_of_anthropic();
    lemma_hash_of_openai_chat();
    lemma_hash_of_openai_responses();
}

/// No provider's label value has the hash of the empty one.
pub proof fn law_no_provider_hashes_like_the_empty_label(i: int)
    requires
        0 <= i < vocabulary().len(),
    ensures
        crate::prom::label_value_hash(vocabulary()[i]) != crate::prom::label_value_hash(
            Seq::<char>::empty(),
        ),
{
    lemma_hash_of_anthropic();
    lemma_hash_of_openai_chat();
    lemma_hash_of_openai_responses();
}

} // verus!
