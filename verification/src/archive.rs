//! The archives inside a package.

use std::io::Write;
use vstd::arithmetic::div_mod::lemma_div_denominator;
use vstd::arithmetic::power::{lemma_pow_positive, pow};
use vstd::prelude::*;

use crate::error::PackageError;
use crate::le::{
    law_le_bytes_are_the_digits, le_bytes, le_value, lemma_le_value_of_bytes, lemma_pow_256,
};

verus! {

/// The name of the configuration file in `metadata.tgz`.
pub const CONFIG_FILE_NAME: &'static str = "config.json";

/// The permissions of the configuration file: `rw-r--r--`.
pub const CONFIG_FILE_MODE: u32 = 0o644;

/// `n` zero bytes.
pub open spec fn zeros(n: nat) -> Seq<u8> {
    Seq::new(n, |i: int| 0u8)
}

/// The `n` low octal digits of `x` in ASCII, most significant digit first.
pub open spec fn octal_digits(x: nat, n: nat) -> Seq<u8>
    decreases n,
{
    if n == 0 {
        Seq::empty()
    } else {
        octal_digits(x / 8, (n - 1) as nat).push((48 + x % 8) as u8)
    }
}

/// A numeric header field of `width` bytes: octal digits and a zero byte.
pub open spec fn octal_field(x: nat, width: nat) -> Seq<u8> {
    octal_digits(x, (width - 1) as nat).push(0)
}

/// The size field: octal below 8 GiB, else a marker and the number in
/// big-endian order.
pub open spec fn size_field(size: nat) -> Seq<u8> {
    if size < 0o100000000000 {
        octal_field(size, 12)
    } else {
        seq![0x80u8, 0u8, 0u8, 0u8] + le_bytes(size, 8).reverse()
    }
}

/// The sum of the bytes of `s`.
pub open spec fn byte_sum(s: Seq<u8>) -> nat
    decreases s.len(),
{
    if s.len() == 0 {
        0
    } else {
        byte_sum(s.drop_last()) + s.last() as nat
    }
}

/// The ASCII characters of `s` as bytes.
pub open spec fn ascii_bytes(s: Seq<char>) -> Seq<u8> {
    Seq::new(s.len(), |i: int| s[i] as u8)
}

/// A letter or a digit of ASCII.
pub open spec fn is_ascii_alphanumeric(c: char) -> bool {
    'a' <= c <= 'z' || 'A' <= c <= 'Z' || '0' <= c <= '9'
}

/// A file name of at most 100 characters that every platform takes literally.
pub open spec fn plain_file_name(name: Seq<char>) -> bool {
    &&& 1 <= name.len() <= 100
    &&& is_ascii_alphanumeric(name[0])
    &&& forall|i: int|
        0 <= i < name.len() ==> is_ascii_alphanumeric(#[trigger] name[i]) || name[i] == '.'
            || name[i] == '_' || name[i] == '-'
}

/// The header fields before the checksum: name, mode, owner, size and time.
pub open spec fn header_front(name: Seq<char>, mode: nat, size: nat) -> Seq<u8> {
    ascii_bytes(name) + zeros((100 - name.len()) as nat) + octal_field(mode, 8) + zeros(16)
        + size_field(size) + octal_field(0, 12)
}

/// The header fields behind the checksum: only the GNU magic is not zero.
pub open spec fn header_back() -> Seq<u8> {
    zeros(101) + seq![0x75u8, 0x73u8, 0x74u8, 0x61u8, 0x72u8, 0x20u8, 0x20u8, 0x00u8] + zeros(247)
}

/// The tar header of a regular file. The checksum is the sum of all bytes, with
/// its own eight bytes counted as spaces.
pub open spec fn file_header(name: Seq<char>, mode: nat, size: nat) -> Seq<u8> {
    header_front(name, mode, size) + octal_field(
        byte_sum(header_front(name, mode, size)) + 8 * 32 + byte_sum(header_back()),
        8,
    ) + header_back()
}

/// How many bytes fill the last block of 512 after `len` bytes.
pub open spec fn padding_len(len: nat) -> nat {
    ((512 - len % 512) % 512) as nat
}

/// A tar archive of one entry: the header, the data filled up to whole blocks,
/// and two blocks of zeros.
pub open spec fn tar_archive(header: Seq<u8>, data: Seq<u8>) -> Seq<u8> {
    header + data + zeros(padding_len(data.len())) + zeros(1024)
}

/// The tar archive inside `metadata.tgz`.
pub open spec fn config_archive(config_json: Seq<u8>) -> Seq<u8> {
    tar_archive(
        file_header("config.json"@, CONFIG_FILE_MODE as nat, config_json.len()),
        config_json,
    )
}

/// The gzip stream that `flate2::write::GzEncoder` makes of `data` at the
/// default compression level.
pub uninterp spec fn gzip_stream(data: Seq<u8>) -> Seq<u8>;

/// `metadata.tgz` for a configuration.
pub open spec fn metadata_tgz(config_json: Seq<u8>) -> Seq<u8> {
    gzip_stream(config_archive(config_json))
}

/// `payload.tgz` without wheels: an archive without entries.
pub open spec fn empty_payload_tgz() -> Seq<u8> {
    gzip_stream(zeros(1024))
}

/// What `flate2::read::GzDecoder` reads from `stream` up to its end, or nothing
/// where it fails.
pub uninterp spec fn gunzipped(stream: Seq<u8>) -> Option<Seq<u8>>;

/// `tar::Header` as `new_gnu` starts it, with `set_path`, `set_size` and
/// `set_mode` applied and sealed by `set_cksum`: for a plain file name the path
/// is accepted and the 512 bytes are those of [`file_header`].
#[verifier::external_body]
fn gnu_file_header(name: &str, mode: u32, size: u64) -> (header: Result<Vec<u8>, std::io::Error>)
    requires
        plain_file_name(name@),
    ensures
        header is Ok,
        header matches Ok(bytes) ==> bytes@ == file_header(name@, mode as nat, size as nat),
{
    let mut header = tar::Header::new_gnu();
    header.set_path(name)?;
    header.set_size(size);
    header.set_mode(mode);
    header.set_cksum();
    Ok(header.as_bytes().to_vec())
}

/// `tar::Builder` over a vector, with one `append` and `into_inner`: the header,
/// the data filled up with zeros to whole blocks of 512 bytes, and 1024 zeros.
#[verifier::external_body]
fn tar_of_entry(header: &[u8], data: &[u8]) -> (archive: Result<Vec<u8>, std::io::Error>)
    requires
        header@.len() == 512,
    ensures
        archive is Ok,
        archive matches Ok(bytes) ==> bytes@ == tar_archive(header@, data@),
{
    let mut builder = tar::Builder::new(Vec::new());
    builder.append(tar::Header::from_byte_slice(header), data)?;
    builder.into_inner()
}

/// `tar::Builder` over a vector, with `into_inner` alone: an archive without
/// entries is 1024 zeros.
#[verifier::external_body]
fn tar_of_nothing() -> (archive: Result<Vec<u8>, std::io::Error>)
    ensures
        archive is Ok,
        archive matches Ok(bytes) ==> bytes@ == zeros(1024),
{
    tar::Builder::new(Vec::new()).into_inner()
}

/// `flate2::write::GzEncoder` over a vector, with the default compression: one
/// `write_all` and `finish`. A vector takes every write and the compressor fails
/// only when it is used after its end, so the calls succeed; the stream depends
/// on the data alone, and `flate2::read::GzDecoder` reads the data back from it.
#[verifier::external_body]
fn gzip(data: &[u8]) -> (stream: Result<Vec<u8>, std::io::Error>)
    ensures
        stream is Ok,
        stream matches Ok(bytes) ==> bytes@ == gzip_stream(data@) && gunzipped(bytes@) == Some(
            data@,
        ),
{
    let mut encoder = flate2::write::GzEncoder::new(Vec::new(), flate2::Compression::default());
    encoder.write_all(data)?;
    encoder.finish()
}

proof fn lemma_octal_digits_len(x: nat, n: nat)
    ensures
        octal_digits(x, n).len() == n,
    decreases n,
{
    if n > 0 {
        lemma_octal_digits_len(x / 8, (n - 1) as nat);
    }
}

/// A header is one block.
proof fn lemma_file_header_len(name: Seq<char>, mode: nat, size: nat)
    requires
        plain_file_name(name),
    ensures
        header_front(name, mode, size).len() == 148,
        header_back().len() == 356,
        file_header(name, mode, size).len() == 512,
{
    broadcast use crate::le::lemma_le_bytes_len;

    lemma_octal_digits_len(mode, 7);
    lemma_octal_digits_len(size, 11);
    lemma_octal_digits_len(0, 11);
    lemma_octal_digits_len(
        byte_sum(header_front(name, mode, size)) + 8 * 32 + byte_sum(header_back()),
        7,
    );
}

proof fn lemma_config_file_name()
    ensures
        plain_file_name("config.json"@),
{
    reveal_strlit("config.json");
}

/// The number that octal digits in ASCII stand for, most significant first.
pub open spec fn octal_value(digits: Seq<u8>) -> nat
    decreases digits.len(),
{
    if digits.len() == 0 {
        0
    } else {
        octal_value(digits.drop_last()) * 8 + (digits.last() - 48) as nat
    }
}

/// The name in the first header of a tar archive ends at the first zero byte.
pub open spec fn entry_named(archive: Seq<u8>, name: Seq<char>) -> bool {
    &&& archive.subrange(0, name.len() as int) == ascii_bytes(name)
    &&& archive[name.len() as int] == 0
    &&& !ascii_bytes(name).contains(0)
}

/// The permissions in the first header of a tar archive.
pub open spec fn entry_mode(archive: Seq<u8>) -> nat {
    octal_value(archive.subrange(100, 107))
}

/// The size in the first header of a tar archive: octal, or big-endian behind
/// the marker of large sizes.
pub open spec fn entry_size(archive: Seq<u8>) -> nat {
    if archive[124] >= 0x80 {
        le_value(archive.subrange(128, 136).reverse())
    } else {
        octal_value(archive.subrange(124, 135))
    }
}

/// The contents of the first entry of a tar archive.
pub open spec fn entry_data(archive: Seq<u8>) -> Seq<u8> {
    archive.subrange(512, (512 + entry_size(archive)) as int)
}

/// What follows the blocks of the first entry of a tar archive.
pub open spec fn after_entry(archive: Seq<u8>) -> Seq<u8> {
    archive.skip((512 + entry_size(archive) + padding_len(entry_size(archive))) as int)
}

proof fn lemma_octal_round_trip(x: nat, n: nat)
    requires
        x < pow(8, n),
    ensures
        octal_value(octal_digits(x, n)) == x,
        octal_digits(x, n).len() == n,
        forall|i: int| 0 <= i < n ==> 48 <= #[trigger] octal_digits(x, n)[i] < 56,
    decreases n,
{
    reveal(pow);
    if n > 0 {
        let rest = (n - 1) as nat;
        assert(pow(8, n) == 8 * pow(8, rest));
        lemma_octal_round_trip(x / 8, rest);
        assert(octal_digits(x, n).drop_last() =~= octal_digits(x / 8, rest));
    }
}

/// What is archived as `config.json` reads back: the entry has that name, the
/// permissions `rw-r--r--`, and the size and the contents that were archived. It
/// is the only entry: only the two blocks of zeros that end an archive follow.
/// The archive is made of whole blocks.
#[verifier::rlimit(50)]
pub proof fn law_config_archive_reads_back(config_json: Seq<u8>)
    requires
        config_json.len() <= u64::MAX,
    ensures
        entry_named(config_archive(config_json), "config.json"@),
        entry_mode(config_archive(config_json)) == 0o644,
        entry_size(config_archive(config_json)) == config_json.len(),
        entry_data(config_archive(config_json)) == config_json,
        after_entry(config_archive(config_json)) == zeros(1024),
        config_archive(config_json).len() % 512 == 0,
{
    broadcast use crate::le::lemma_le_bytes_len;

    reveal_strlit("config.json");
    let archive = config_archive(config_json);
    let name = "config.json"@;
    let size = config_json.len();
    lemma_config_file_name();
    lemma_file_header_len(name, CONFIG_FILE_MODE as nat, size);
    lemma_octal_digits_len(CONFIG_FILE_MODE as nat, 7);
    lemma_octal_digits_len(size, 11);
    reveal_with_fuel(pow, 12);
    assert(archive.subrange(0, 11) =~= ascii_bytes(name));
    assert(archive[11] == zeros(89)[0]);
    lemma_octal_round_trip(CONFIG_FILE_MODE as nat, 7);
    assert(archive.subrange(100, 107) =~= octal_digits(CONFIG_FILE_MODE as nat, 7));
    if size < 0o100000000000 {
        lemma_octal_round_trip(size, 11);
        assert(archive.subrange(124, 135) =~= octal_digits(size, 11));
        assert(archive[124] == octal_digits(size, 11)[0]);
    } else {
        lemma_pow_256();
        lemma_le_value_of_bytes(size, 8);
        assert(archive[124] == 0x80);
        assert(archive.subrange(128, 136).reverse() =~= le_bytes(size, 8));
    }
    assert(entry_data(archive) =~= config_json);
    assert(after_entry(archive) =~= zeros(1024));
}

/// The tar archive that holds `config_json` as `config.json`.
pub fn create_metadata_tar(config_json: &[u8]) -> (archive: Result<Vec<u8>, PackageError>)
    ensures
        archive matches Ok(bytes) && bytes@ == config_archive(config_json@),
{
    proof {
        lemma_config_file_name();
        lemma_file_header_len("config.json"@, CONFIG_FILE_MODE as nat, config_json@.len());
    }
    let header = match gnu_file_header(
        CONFIG_FILE_NAME,
        CONFIG_FILE_MODE,
        config_json.len() as u64,
    ) {
        Ok(header) => header,
        Err(error) => return Err(PackageError::Archive(error)),
    };
    match tar_of_entry(header.as_slice(), config_json) {
        Ok(archive) => Ok(archive),
        Err(error) => Err(PackageError::Archive(error)),
    }
}

/// The gzip stream of a tar archive.
pub fn compress_archive(archive: &[u8]) -> (tgz: Result<Vec<u8>, PackageError>)
    ensures
        tgz matches Ok(bytes) && bytes@ == gzip_stream(archive@) && gunzipped(bytes@) == Some(
            archive@,
        ),
{
    match gzip(archive) {
        Ok(tgz) => Ok(tgz),
        Err(error) => Err(PackageError::Archive(error)),
    }
}

/// `metadata.tgz`: the gzip stream of a tar archive that holds `config_json` as
/// `config.json`.
pub fn create_metadata_tgz(config_json: &[u8]) -> (tgz: Result<Vec<u8>, PackageError>)
    ensures
        tgz matches Ok(bytes) && bytes@ == metadata_tgz(config_json@) && gunzipped(bytes@) == Some(
            config_archive(config_json@),
        ),
{
    let archive = create_metadata_tar(config_json)?;
    compress_archive(archive.as_slice())
}

/// `payload.tgz` while no wheels are bundled: the gzip stream of an empty tar
/// archive.
pub fn create_payload_tgz() -> (tgz: Result<Vec<u8>, PackageError>)
    ensures
        tgz matches Ok(bytes) && bytes@ == empty_payload_tgz() && gunzipped(bytes@) == Some(
            zeros(1024),
        ),
{
    let archive = match tar_of_nothing() {
        Ok(archive) => archive,
        Err(error) => return Err(PackageError::Archive(error)),
    };
    compress_archive(archive.as_slice())
}

proof fn lemma_octal_digit(x: nat, n: nat, i: nat)
    requires
        i < n,
    ensures
        octal_digits(x, n).len() == n,
        octal_digits(x, n)[i as int] == 48 + (x as int / pow(8, (n - 1 - i) as nat)) % 8,
    decreases n,
{
    reveal(pow);
    lemma_octal_digits_len(x, n);
    let rest = (n - 1) as nat;
    lemma_octal_digits_len(x / 8, rest);
    if i < rest {
        lemma_octal_digit(x / 8, rest, i);
        lemma_pow_positive(8, (rest - 1 - i) as nat);
        lemma_div_denominator(x as int, 8, pow(8, (rest - 1 - i) as nat));
    }
}

proof fn lemma_byte_sum(s: Seq<u8>)
    ensures
        byte_sum(s) == s.fold_left(0int, |sum: int, b: u8| sum + b),
        byte_sum(s) <= 255 * s.len(),
    decreases s.len(),
{
    if s.len() > 0 {
        lemma_byte_sum(s.drop_last());
    }
}

/// The first header of the archive is one that readers accept: the checksum
/// field holds, as seven octal digits and a zero byte, the sum of the bytes of
/// the header, with those of the field itself counted as spaces. The type is that
/// of a regular file and the magic that of GNU tar.
#[verifier::rlimit(50)]
pub proof fn law_config_header_is_well_formed(config_json: Seq<u8>)
    requires
        config_json.len() <= u64::MAX,
    ensures
        ({
            let archive = config_archive(config_json);
            let sum = archive.subrange(0, 148).fold_left(0int, |sum: int, b: u8| sum + b) + 8 * 32
                + archive.subrange(156, 512).fold_left(0int, |sum: int, b: u8| sum + b);
            &&& 0 <= sum < pow(8, 7)
            &&& forall|i: nat|
                i < 7 ==> #[trigger] archive[148 + i as int] == 48 + (sum / pow(
                    8,
                    (6 - i) as nat,
                )) % 8
            &&& archive[155] == 0
            &&& octal_value(archive.subrange(148, 155)) == sum
            &&& archive[156] == 0
            &&& archive.subrange(257, 265) == seq![
                0x75u8,
                0x73u8,
                0x74u8,
                0x61u8,
                0x72u8,
                0x20u8,
                0x20u8,
                0x00u8,
            ]
        }),
{
    broadcast use crate::le::lemma_le_bytes_len;

    let archive = config_archive(config_json);
    let name = "config.json"@;
    let size = config_json.len();
    let front = header_front(name, CONFIG_FILE_MODE as nat, size);
    let back = header_back();
    lemma_config_file_name();
    lemma_file_header_len(name, CONFIG_FILE_MODE as nat, size);
    lemma_byte_sum(front);
    lemma_byte_sum(back);
    let sum = byte_sum(front) + 8 * 32 + byte_sum(back);
    lemma_octal_digits_len(sum, 7);
    reveal_with_fuel(pow, 8);
    assert(pow(8, 7) == 2097152);
    assert(archive.subrange(0, 148) =~= front);
    assert(archive.subrange(156, 512) =~= back);
    assert(archive.subrange(148, 155) =~= octal_digits(sum, 7));
    assert forall|i: nat| i < 7 implies #[trigger] archive[148 + i as int] == 48 + (sum as int
        / pow(8, (6 - i) as nat)) % 8 by {
        lemma_octal_digit(sum, 7, i);
        assert(archive[148 + i as int] == archive.subrange(148, 155)[i as int]);
    }
    lemma_octal_round_trip(sum, 7);
    assert(archive[155] == octal_field(sum, 8)[7]);
    assert(archive[156] == back[0]);
    assert(archive.subrange(257, 265) =~= seq![
        0x75u8,
        0x73u8,
        0x74u8,
        0x61u8,
        0x72u8,
        0x20u8,
        0x20u8,
        0x00u8,
    ]);
}

proof fn lemma_config_header(config_json: Seq<u8>)
    ensures
        ({
            let archive = config_archive(config_json);
            let front = header_front("config.json"@, CONFIG_FILE_MODE as nat, config_json.len());
            &&& front.len() == 148
            &&& forall|i: int| 0 <= i < 148 ==> #[trigger] archive[i] == front[i]
            &&& forall|i: int|
                156 <= i < 512 ==> #[trigger] archive[i] == header_back()[i - 156]
            &&& front.subrange(0, 11) == ascii_bytes("config.json"@)
            &&& front.subrange(11, 100) == zeros(89)
            &&& front.subrange(100, 108) == octal_field(CONFIG_FILE_MODE as nat, 8)
            &&& front.subrange(108, 124) == zeros(16)
            &&& front.subrange(124, 136) == size_field(config_json.len())
            &&& front.subrange(136, 148) == octal_field(0, 12)
        }),
{
    broadcast use crate::le::lemma_le_bytes_len;

    reveal_strlit("config.json");
    let name = "config.json"@;
    let size = config_json.len();
    let mode = CONFIG_FILE_MODE as nat;
    let front = header_front(name, mode, size);
    lemma_config_file_name();
    lemma_file_header_len(name, mode, size);
    lemma_octal_digits_len(mode, 7);
    lemma_octal_digits_len(size, 11);
    lemma_octal_digits_len(0, 11);
    assert(front.subrange(0, 11) =~= ascii_bytes(name));
    assert(front.subrange(11, 100) =~= zeros(89));
    assert(front.subrange(100, 108) =~= octal_field(mode, 8));
    assert(front.subrange(108, 124) =~= zeros(16));
    assert(front.subrange(124, 136) =~= size_field(size));
    assert(front.subrange(136, 148) =~= octal_field(0, 12));
}

/// The header of the archive holds the name `config.json`, the mode `0000644`, no
/// owner and the time zero, each at its place.
#[verifier::rlimit(50)]
pub proof fn law_config_header_name_mode_and_time(config_json: Seq<u8>)
    ensures
        ({
            let archive = config_archive(config_json);
            &&& archive.subrange(0, 11) == seq![
                0x63u8,
                0x6Fu8,
                0x6Eu8,
                0x66u8,
                0x69u8,
                0x67u8,
                0x2Eu8,
                0x6Au8,
                0x73u8,
                0x6Fu8,
                0x6Eu8,
            ]
            &&& forall|i: int| 11 <= i < 100 ==> #[trigger] archive[i] == 0
            &&& archive.subrange(100, 108) == seq![
                0x30u8,
                0x30u8,
                0x30u8,
                0x30u8,
                0x36u8,
                0x34u8,
                0x34u8,
                0x00u8,
            ]
            &&& forall|i: int| 108 <= i < 124 ==> #[trigger] archive[i] == 0
            &&& forall|i: int| 136 <= i < 147 ==> #[trigger] archive[i] == 0x30
            &&& archive[147] == 0
        }),
{
    let archive = config_archive(config_json);
    let front = header_front("config.json"@, CONFIG_FILE_MODE as nat, config_json.len());
    lemma_config_header(config_json);
    assert(archive.len() >= 512) by {
        lemma_config_file_name();
        lemma_file_header_len("config.json"@, CONFIG_FILE_MODE as nat, config_json.len());
    }
    assert(ascii_bytes("config.json"@) =~= seq![
        0x63u8,
        0x6Fu8,
        0x6Eu8,
        0x66u8,
        0x69u8,
        0x67u8,
        0x2Eu8,
        0x6Au8,
        0x73u8,
        0x6Fu8,
        0x6Eu8,
    ]) by {
        reveal_strlit("config.json");
    }
    assert(archive.subrange(0, 11) =~= front.subrange(0, 11));
    assert forall|i: int| 11 <= i < 100 implies #[trigger] archive[i] == 0 by {
        assert(front[i] == front.subrange(11, 100)[i - 11]);
    }
    assert(octal_field(CONFIG_FILE_MODE as nat, 8) =~= seq![
        0x30u8,
        0x30u8,
        0x30u8,
        0x30u8,
        0x36u8,
        0x34u8,
        0x34u8,
        0x00u8,
    ]) by {
        reveal_with_fuel(octal_digits, 8);
    }
    assert(archive.subrange(100, 108) =~= front.subrange(100, 108));
    assert forall|i: int| 108 <= i < 124 implies #[trigger] archive[i] == 0 by {
        assert(front[i] == front.subrange(108, 124)[i - 108]);
    }
    lemma_octal_digits_len(0, 11);
    assert forall|i: int| 136 <= i < 147 implies #[trigger] archive[i] == 0x30 by {
        let k = (i - 136) as nat;
        let p = pow(8, (10 - k) as nat);
        lemma_octal_digit(0, 11, k);
        lemma_pow_positive(8, (10 - k) as nat);
        assert(0int / p == 0) by (nonlinear_arith)
            requires
                p > 0,
        ;
        assert(front[i] == front.subrange(136, 148)[k as int]);
    }
    assert(front[147] == front.subrange(136, 148)[11]);
}

/// The header of the archive holds the size of the configuration: in octal
/// digits, or from 8 GiB on in binary behind a marker, the highest byte first.
pub proof fn law_config_header_size(config_json: Seq<u8>)
    requires
        config_json.len() <= u64::MAX,
    ensures
        ({
            let archive = config_archive(config_json);
            let size = config_json.len() as int;
            &&& size < 0x2_0000_0000 ==> archive[135] == 0 && forall|i: nat|
                i < 11 ==> #[trigger] archive[124 + i as int] == 48 + (size / pow(
                    8,
                    (10 - i) as nat,
                )) % 8
            &&& size >= 0x2_0000_0000 ==> archive.subrange(124, 128) == seq![
                0x80u8,
                0u8,
                0u8,
                0u8,
            ] && forall|i: nat|
                i < 8 ==> #[trigger] archive[128 + i as int] == (size / pow(
                    256,
                    (7 - i) as nat,
                )) % 256
        }),
{
    broadcast use crate::le::lemma_le_bytes_len;

    let archive = config_archive(config_json);
    let size = config_json.len();
    let front = header_front("config.json"@, CONFIG_FILE_MODE as nat, size);
    let field = size_field(size);
    lemma_config_header(config_json);
    assert(archive.len() >= 512) by {
        lemma_config_file_name();
        lemma_file_header_len("config.json"@, CONFIG_FILE_MODE as nat, size);
    }
    assert forall|i: int| 124 <= i < 136 implies #[trigger] archive[i] == field[i - 124] by {
        assert(front[i] == front.subrange(124, 136)[i - 124]);
    }
    lemma_octal_digits_len(size, 11);
    if size < 0x2_0000_0000 {
        assert(archive[135] == field[11]);
        assert forall|i: nat| i < 11 implies #[trigger] archive[124 + i as int] == 48 + (size as int
            / pow(8, (10 - i) as nat)) % 8 by {
            lemma_octal_digit(size, 11, i);
            assert(archive[124 + i as int] == field[i as int]);
        }
    } else {
        let bytes = le_bytes(size, 8);
        assert(archive.subrange(124, 128) =~= seq![0x80u8, 0u8, 0u8, 0u8]);
        assert forall|i: nat| i < 8 implies #[trigger] archive[128 + i as int] == (size as int
            / pow(256, (7 - i) as nat)) % 256 by {
            law_le_bytes_are_the_digits(size, 8, (7 - i) as nat);
            assert(archive[128 + i as int] == field[4 + i as int]);
            assert(field[4 + i as int] == bytes.reverse()[i as int]);
        }
    }
}

/// Behind the header stand the configuration and nothing but zeros, which fill
/// the last block and make two more. The rest of the header is zero as well.
#[verifier::rlimit(50)]
pub proof fn law_config_archive_holds_nothing_else(config_json: Seq<u8>)
    ensures
        ({
            let archive = config_archive(config_json);
            let size = config_json.len() as int;
            &&& forall|i: int| 157 <= i < 257 || 265 <= i < 512 ==> #[trigger] archive[i] == 0
            &&& archive.subrange(512, 512 + size) == config_json
            &&& forall|i: int| 512 + size <= i < archive.len() ==> #[trigger] archive[i] == 0
            &&& archive.len() % 512 == 0
            &&& 512 + size + 1024 <= archive.len() < 512 + size + 1024 + 512
        }),
{
    let archive = config_archive(config_json);
    let size = config_json.len() as int;
    lemma_config_header(config_json);
    lemma_config_file_name();
    lemma_file_header_len("config.json"@, CONFIG_FILE_MODE as nat, config_json.len());
    assert(archive.subrange(512, 512 + size) =~= config_json);
}

/// `zeros` holds nothing but zero bytes, as many as asked for.
pub proof fn law_zeros_are_zeros(n: nat)
    ensures
        zeros(n).len() == n,
        forall|i: int| 0 <= i < n ==> #[trigger] zeros(n)[i] == 0,
{
}

} // verus!
