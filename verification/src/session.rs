//! Laws of whole recording sessions: what a file holds after a writer has been
//! opened, has recorded spectra in turn and has been closed.
use vstd::prelude::*;
use crate::binary_observation::{
    zeros,
    append_outcome, decoded_fields, header_bytes, header_fault, header_i64, header_u64,
    lemma_finish_updates_header, lemma_header_roundtrip, lemma_resume_after_records,
    lemma_row_size, lemma_trailer_fields, row_bytes, row_size_for, trailer_bytes, encode_fault,
    AppendPosition, BINARY_HEADER_SIZE, ELAPSED_SEC_OFFSET, END_UNIX_NS_OFFSET, ROW_COUNT_OFFSET,
};
use crate::byte_codec::{
    concat_bytes, field, i64_le, lemma_concat_uniform, lemma_i64_le_roundtrip, lemma_splice,
    lemma_splice_left, lemma_splice_within, lemma_u64_le_roundtrip, splice, u64_le,
};
use crate::clock::{chrono_fits_datetime, UtcInstant};
use crate::error::ErrorKind;
use crate::fits_card::{integer_card_bytes, string_card_bytes, FITS_BLOCK_SIZE, FITS_CARD_SIZE};
use crate::fits_table::{
    all_cards, binary_table_cards, block_padding, fits_row_bytes, header_block_bytes,
    lemma_all_cards_update, lemma_cards_bytes_len, lemma_fits_row_size,
    lemma_patch_card, lemma_primary_header_size, lemma_table_dates, lemma_table_header_size, primary_header_cards,
    FitsFloatTexts,
};
use crate::metadata::{BandEdges, F32Bits, F64Bits, ObservationMetadata};

verus! {

/// Rows of `len` bytes each, written one after another after `prefix`: row `i`
/// stands at `start + i * len`, where `start` is the length of `prefix`.
pub proof fn lemma_rows_in_order(prefix: Seq<u8>, rows: Seq<Seq<u8>>, len: nat, start: int)
    requires
        prefix.len() == start,
        forall|i: int| 0 <= i < rows.len() ==> (#[trigger] rows[i]).len() == len,
    ensures
        (prefix + concat_bytes(rows)).len() == start + rows.len() * len,
        forall|i: int|
            0 <= i < rows.len() ==> (prefix + concat_bytes(rows)).subrange(
                start + i * len,
                start + i * len + len,
            ) == #[trigger] rows[i],
{
    lemma_concat_uniform(rows, len);
    let f = prefix + concat_bytes(rows);
    assert forall|i: int| 0 <= i < rows.len() implies f.subrange(start + i * len, start + i * len + len)
        == #[trigger] rows[i] by {
        assert(i * len + len <= rows.len() * len) by (nonlinear_arith)
            requires
                i < rows.len(),
        ;
        assert(concat_bytes(rows).subrange(i * len, i * len + len) == rows[i]);
        assert(f.subrange(start + i * len, start + i * len + len) =~= concat_bytes(rows).subrange(
            i * len,
            i * len + len,
        ));
    }
}

/// The records of `records`, each its elapsed seconds, center frequency and spectrum,
/// as `record_spectrum` returns them.
pub open spec fn binary_rows(records: Seq<(F64Bits, F64Bits, Seq<F32Bits>)>) -> Seq<Seq<u8>> {
    records.map_values(|r: (F64Bits, F64Bits, Seq<F32Bits>)| row_bytes(r.0, r.1, r.2))
}

/// A recording session of the `.bin` file: a header that records `k` records, the
/// `k` records already in the file (`earlier`), then the records of `records` in
/// the order they were recorded, closed by writing the trailer for `k + r` records
/// at `ROW_COUNT_OFFSET`. The closed file holds each record in call order after the
/// earlier ones; its header is the header of `k + r` records with the new end time
/// and elapsed seconds, all other bytes unchanged. (`lemma_closed_header_reads_back`
/// states that such a header reads back as the same observation, and that the
/// closed file resumes after its `k + r` records.)
#[verifier::rlimit(100)]
#[verifier::spinoff_prover]
pub proof fn lemma_binary_session(
    metadata: ObservationMetadata,
    band: BandEdges,
    start_unix_ns: i64,
    end_unix_ns: i64,
    elapsed_sec: F64Bits,
    k: u64,
    earlier: Seq<u8>,
    records: Seq<(F64Bits, F64Bits, Seq<F32Bits>)>,
    final_end_unix_ns: i64,
    final_elapsed_sec: F64Bits,
)
    requires
        earlier.len() == k * row_size_for(metadata.channel_count as int),
        forall|i: int| 0 <= i < records.len() ==> (#[trigger] records[i]).2.len() == metadata.channel_count,
        BINARY_HEADER_SIZE + (k + records.len()) * row_size_for(metadata.channel_count as int)
            <= u64::MAX,
    ensures
        ({
            let rs = row_size_for(metadata.channel_count as int);
            let r = records.len() as int;
            let n = (k + r) as u64;
            let header = header_bytes(metadata, band, start_unix_ns, end_unix_ns, rs as u64, k, elapsed_sec);
            let file = header + earlier + concat_bytes(binary_rows(records));
            let closed = splice(
                file,
                ROW_COUNT_OFFSET as int,
                trailer_bytes(n, final_end_unix_ns, final_elapsed_sec),
            );
            &&& file.len() == BINARY_HEADER_SIZE + (k + r) * rs
            &&& closed == header_bytes(
                metadata,
                band,
                start_unix_ns,
                final_end_unix_ns,
                rs as u64,
                n,
                final_elapsed_sec,
            ) + earlier + concat_bytes(binary_rows(records))
            &&& closed.subrange(0, BINARY_HEADER_SIZE as int) == header_bytes(
                metadata,
                band,
                start_unix_ns,
                final_end_unix_ns,
                rs as u64,
                n,
                final_elapsed_sec,
            )
            &&& header_u64(closed, ROW_COUNT_OFFSET as int) == n
            &&& header_i64(closed, END_UNIX_NS_OFFSET as int) == final_end_unix_ns
            &&& header_u64(closed, ELAPSED_SEC_OFFSET as int) == final_elapsed_sec.0
            &&& closed.len() == file.len()
            &&& forall|i: int|
                0 <= i < file.len() && !(ROW_COUNT_OFFSET <= i < ROW_COUNT_OFFSET + 24)
                    ==> #[trigger] closed[i] == file[i]
            &&& forall|i: int|
                0 <= i < r ==> closed.subrange(
                    BINARY_HEADER_SIZE + k * rs + i * rs,
                    BINARY_HEADER_SIZE + k * rs + i * rs + rs,
                ) == #[trigger] binary_rows(records)[i]
            &&& forall|i: int|
                0 <= i < r ==> #[trigger] binary_rows(records)[i] == row_bytes(
                    records[i].0,
                    records[i].1,
                    records[i].2,
                )
        }),
{
    let rs = row_size_for(metadata.channel_count as int);
    let r = records.len() as int;
    let n = (k + r) as u64;
    let rows = binary_rows(records);
    let header = header_bytes(metadata, band, start_unix_ns, end_unix_ns, rs as u64, k, elapsed_sec);
    let closed_header = header_bytes(
        metadata,
        band,
        start_unix_ns,
        final_end_unix_ns,
        rs as u64,
        n,
        final_elapsed_sec,
    );
    let trailer = trailer_bytes(n, final_end_unix_ns, final_elapsed_sec);
    lemma_trailer_fields(metadata, band, start_unix_ns, final_end_unix_ns, rs as u64, n, final_elapsed_sec);
    lemma_trailer_fields(metadata, band, start_unix_ns, end_unix_ns, rs as u64, k, elapsed_sec);
    lemma_finish_updates_header(
        metadata,
        band,
        start_unix_ns,
        end_unix_ns,
        rs as u64,
        k,
        elapsed_sec,
        final_end_unix_ns,
        n,
        final_elapsed_sec,
    );
    assert forall|i: int| 0 <= i < rows.len() implies (#[trigger] rows[i]).len() == rs by {
        lemma_row_size(records[i].0, records[i].1, records[i].2);
    }
    lemma_session_bytes(header, closed_header, earlier, rows, rs as nat, k as nat, trailer);
    let closed = closed_header + earlier + concat_bytes(rows);
    assert(field(closed, ROW_COUNT_OFFSET as int, 8) == u64_le(n));
    assert(field(closed, END_UNIX_NS_OFFSET as int, 8) == i64_le(final_end_unix_ns));
    assert(field(closed, ELAPSED_SEC_OFFSET as int, 8) == u64_le(final_elapsed_sec.0));
    lemma_u64_le_roundtrip(n);
    lemma_i64_le_roundtrip(final_end_unix_ns);
    lemma_u64_le_roundtrip(final_elapsed_sec.0);
}

/// A closed `.bin` header reads back as the observation it was opened for, and a file
/// of it and its `n` records resumes after them: the header of `n` records, the end
/// and the elapsed seconds of closing, decodes without fault to the same settings,
/// start and record size as the header it was opened with.
pub proof fn lemma_closed_header_reads_back(
    metadata: ObservationMetadata,
    band: BandEdges,
    start_unix_ns: i64,
    end_unix_ns: i64,
    elapsed_sec: F64Bits,
    k: u64,
    n: u64,
    final_end_unix_ns: i64,
    final_elapsed_sec: F64Bits,
)
    requires
        encode_fault(metadata) is None,
        metadata.channel_count > 0,
        row_size_for(metadata.channel_count as int) <= usize::MAX,
        BINARY_HEADER_SIZE + n * row_size_for(metadata.channel_count as int) <= u64::MAX,
    ensures
        ({
            let rs = row_size_for(metadata.channel_count as int);
            let opened = header_bytes(metadata, band, start_unix_ns, end_unix_ns, rs as u64, k, elapsed_sec);
            let closed = header_bytes(
                metadata,
                band,
                start_unix_ns,
                final_end_unix_ns,
                rs as u64,
                n,
                final_elapsed_sec,
            );
            &&& header_fault(closed) is None
            &&& decoded_fields(closed) == decoded_fields(opened)
            &&& append_outcome((BINARY_HEADER_SIZE + n * rs) as u64, rs as usize) == Ok::<
                AppendPosition,
                (ErrorKind, Seq<char>),
            >(
                AppendPosition {
                    row_count: n,
                    last_row_offset: if n == 0 {
                        None
                    } else {
                        Some((BINARY_HEADER_SIZE + (n - 1) * rs) as u64)
                    },
                },
            )
        }),
{
    let rs = row_size_for(metadata.channel_count as int);
    lemma_header_roundtrip(metadata, band, start_unix_ns, final_end_unix_ns, n, final_elapsed_sec);
    lemma_header_roundtrip(metadata, band, start_unix_ns, end_unix_ns, k, elapsed_sec);
    lemma_resume_after_records(rs as usize, n);
}

/// A file of a 256-byte header, `k` records of `rs` bytes and the rows `rows`, with
/// `patch` written at `ROW_COUNT_OFFSET` where it turns the header into
/// `closed_header`.
proof fn lemma_session_bytes(
    header: Seq<u8>,
    closed_header: Seq<u8>,
    earlier: Seq<u8>,
    rows: Seq<Seq<u8>>,
    rs: nat,
    k: nat,
    patch: Seq<u8>,
)
    requires
        header.len() == BINARY_HEADER_SIZE,
        patch.len() == 24,
        splice(header, ROW_COUNT_OFFSET as int, patch) == closed_header,
        earlier.len() == k * rs,
        forall|i: int| 0 <= i < rows.len() ==> (#[trigger] rows[i]).len() == rs,
    ensures
        ({
            let file = header + earlier + concat_bytes(rows);
            let closed = closed_header + earlier + concat_bytes(rows);
            &&& splice(file, ROW_COUNT_OFFSET as int, patch) == closed
            &&& file.len() == BINARY_HEADER_SIZE + (k + rows.len()) * rs
            &&& closed.len() == file.len()
            &&& forall|i: int|
                0 <= i < file.len() && !(ROW_COUNT_OFFSET <= i < ROW_COUNT_OFFSET + 24)
                    ==> #[trigger] closed[i] == file[i]
            &&& forall|i: int|
                0 <= i < rows.len() ==> closed.subrange(
                    BINARY_HEADER_SIZE + k * rs + i * rs,
                    BINARY_HEADER_SIZE + k * rs + i * rs + rs,
                ) == #[trigger] rows[i]
            &&& closed.subrange(0, BINARY_HEADER_SIZE as int) == closed_header
            &&& forall|offset: int, len: int|
                0 <= offset && 0 <= len && offset + len <= BINARY_HEADER_SIZE ==> #[trigger] field(
                    closed,
                    offset,
                    len,
                ) == field(closed_header, offset, len)
        }),
{
    let file = header + earlier + concat_bytes(rows);
    let closed = closed_header + earlier + concat_bytes(rows);
    lemma_splice_left(header, earlier, ROW_COUNT_OFFSET as int, patch);
    lemma_splice_left(header + earlier, concat_bytes(rows), ROW_COUNT_OFFSET as int, patch);
    lemma_splice(file, ROW_COUNT_OFFSET as int, patch);
    lemma_rows_in_order(closed_header + earlier, rows, rs, BINARY_HEADER_SIZE + k * rs);
    lemma_rows_in_order(header + earlier, rows, rs, BINARY_HEADER_SIZE + k * rs);
    assert(BINARY_HEADER_SIZE + k * rs + rows.len() * rs == BINARY_HEADER_SIZE + (k + rows.len()) * rs)
        by (nonlinear_arith);
    lemma_prefix_fields(closed_header, earlier);
    lemma_prefix_fields(closed_header + earlier, concat_bytes(rows));
    assert(closed.subrange(0, BINARY_HEADER_SIZE as int) =~= closed_header);
}

/// The bytes of `a` stand unchanged at the start of `a + b`.
proof fn lemma_prefix_fields(a: Seq<u8>, b: Seq<u8>)
    ensures
        forall|offset: int, len: int|
            0 <= offset && 0 <= len && offset + len <= a.len() ==> #[trigger] field(a + b, offset, len)
                == field(a, offset, len),
{
    assert forall|offset: int, len: int|
        0 <= offset && 0 <= len && offset + len <= a.len() implies #[trigger] field(a + b, offset, len)
        == field(a, offset, len) by {
        assert(field(a + b, offset, len) =~= field(a, offset, len));
    }
}


/// The table rows of `records`, each its elapsed seconds, center frequency and
/// spectrum, as `FitsRecorder::record_spectrum` returns them.
pub open spec fn fits_rows(records: Seq<(F64Bits, F64Bits, Seq<F32Bits>)>) -> Seq<Seq<u8>> {
    records.map_values(|r: (F64Bits, F64Bits, Seq<F32Bits>)| fits_row_bytes(r.0, r.1, r.2))
}

/// The FITS file of an observation that started at `start`, before it is closed: the
/// primary header and the table header, both dated from `start`, the rows of
/// `records`, and the zeros that pad the rows to whole blocks.
pub open spec fn fits_file(
    start: UtcInstant,
    metadata: ObservationMetadata,
    floats: FitsFloatTexts,
    records: Seq<(F64Bits, F64Bits, Seq<F32Bits>)>,
) -> Seq<u8> {
    let date = chrono_fits_datetime(start.seconds, start.nanos);
    let data = concat_bytes(fits_rows(records));
    header_block_bytes(primary_header_cards(date)) + header_block_bytes(
        binary_table_cards(date, metadata, row_size_for(metadata.channel_count as int) as usize, floats),
    ) + data + zeros(block_padding(data.len() as int) as nat)
}

/// A FITS recording session: the file of an observation that started at `start` and
/// recorded the rows of `records` in turn, closed by writing the `NAXIS2` card of the
/// row count, the `DATE-END` card of `end_date` and the cards `tstop` and `telapse`
/// at the offsets that `FitsRecorder::create` reports for a table header written
/// after the primary header: cards 4, 20, 26 and 27 of the table header, 3200, 4480,
/// 4960 and 5040 bytes into the file. The primary header's `DATE` and the table's
/// `DATE-OBS` carry the same date; the headers fill three blocks; the rows follow
/// at byte 8640 in call order; the file is whole blocks; and closing replaces those
/// four cards, all else unchanged.
#[verifier::rlimit(100)]
#[verifier::spinoff_prover]
pub proof fn lemma_fits_session(
    start: UtcInstant,
    metadata: ObservationMetadata,
    floats: FitsFloatTexts,
    records: Seq<(F64Bits, F64Bits, Seq<F32Bits>)>,
    end_date: Seq<char>,
    tstop: Seq<u8>,
    telapse: Seq<u8>,
)
    requires
        row_size_for(metadata.channel_count as int) <= usize::MAX,
        forall|i: int| 0 <= i < records.len() ==> (#[trigger] records[i]).2.len() == metadata.channel_count,
        tstop.len() == FITS_CARD_SIZE,
        telapse.len() == FITS_CARD_SIZE,
    ensures
        ({
            let rs = row_size_for(metadata.channel_count as int);
            let date = chrono_fits_datetime(start.seconds, start.nanos);
            let primary = primary_header_cards(date);
            let cards = binary_table_cards(date, metadata, rs as usize, floats);
            let data = concat_bytes(fits_rows(records));
            let file = fits_file(start, metadata, floats, records);
            let count_card = integer_card_bytes("NAXIS2"@, records.len(), "Number of spectra"@);
            let end_card = string_card_bytes("DATE-END"@, end_date, "UTC end of observation"@);
            let closed = splice(
                splice(
                    splice(
                        splice(file, FITS_BLOCK_SIZE + 4 * FITS_CARD_SIZE, count_card),
                        FITS_BLOCK_SIZE + 20 * FITS_CARD_SIZE,
                        end_card,
                    ),
                    FITS_BLOCK_SIZE + 26 * FITS_CARD_SIZE,
                    tstop,
                ),
                FITS_BLOCK_SIZE + 27 * FITS_CARD_SIZE,
                telapse,
            );
            &&& primary[4] == string_card_bytes("DATE"@, date, "UTC file creation time"@)
            &&& cards[19] == string_card_bytes("DATE-OBS"@, date, "UTC start of observation"@)
            &&& header_block_bytes(primary).len() == FITS_BLOCK_SIZE
            &&& header_block_bytes(cards).len() == 2 * FITS_BLOCK_SIZE
            &&& data.len() == records.len() * rs
            &&& file.len() == 3 * FITS_BLOCK_SIZE + data.len() + block_padding(data.len() as int)
            &&& file.len() % (FITS_BLOCK_SIZE as nat) == 0
            &&& file.subrange(3 * FITS_BLOCK_SIZE as int, 3 * FITS_BLOCK_SIZE + data.len()) == data
            &&& forall|i: int|
                0 <= i < records.len() ==> data.subrange(i * rs, i * rs + rs)
                    == #[trigger] fits_rows(records)[i]
            &&& forall|i: int|
                0 <= i < records.len() ==> #[trigger] fits_rows(records)[i] == fits_row_bytes(
                    records[i].0,
                    records[i].1,
                    records[i].2,
                )
            &&& closed == header_block_bytes(primary) + header_block_bytes(
                cards.update(4, count_card).update(20, end_card).update(26, tstop).update(
                    27,
                    telapse,
                ),
            ) + data + zeros(block_padding(data.len() as int) as nat)
            &&& closed.len() == file.len()
            &&& closed.subrange(3 * FITS_BLOCK_SIZE as int, 3 * FITS_BLOCK_SIZE + data.len()) == data
        }),
{
    let rs = row_size_for(metadata.channel_count as int);
    let date = chrono_fits_datetime(start.seconds, start.nanos);
    let primary = primary_header_cards(date);
    let cards = binary_table_cards(date, metadata, rs as usize, floats);
    let rows = fits_rows(records);
    let data = concat_bytes(rows);
    let pad = zeros(block_padding(data.len() as int) as nat);
    let head = header_block_bytes(primary);
    let count_card = integer_card_bytes("NAXIS2"@, records.len(), "Number of spectra"@);
    let end_card = string_card_bytes("DATE-END"@, end_date, "UTC end of observation"@);
    lemma_primary_header_size(date);
    lemma_table_header_size(date, metadata, rs as usize, floats);
    lemma_table_dates(date, metadata, rs as usize, floats);
    assert forall|i: int| 0 <= i < rows.len() implies (#[trigger] rows[i]).len() == rs by {
        lemma_fits_row_size(records[i].0, records[i].1, records[i].2);
    }
    lemma_concat_uniform(rows, rs as nat);
    let tail = data + pad;
    let file = fits_file(start, metadata, floats, records);
    assert(file =~= head + header_block_bytes(cards) + tail);
    assert(file.subrange(3 * FITS_BLOCK_SIZE as int, 3 * FITS_BLOCK_SIZE + data.len()) =~= data);
    assert(count_card.len() == FITS_CARD_SIZE);
    assert(end_card.len() == FITS_CARD_SIZE);
    let c1 = cards.update(4, count_card);
    let c2 = c1.update(20, end_card);
    let c3 = c2.update(26, tstop);
    let c4 = c3.update(27, telapse);
    lemma_patch_in_file(head, cards, tail, 4, count_card);
    lemma_patch_in_file(head, c1, tail, 20, end_card);
    lemma_patch_in_file(head, c2, tail, 26, tstop);
    lemma_patch_in_file(head, c3, tail, 27, telapse);
    assert(head + header_block_bytes(c4) + tail =~= head + header_block_bytes(c4) + data + pad);
    lemma_cards_bytes_len(c4);
    let closed = head + header_block_bytes(c4) + data + pad;
    assert(closed.subrange(3 * FITS_BLOCK_SIZE as int, 3 * FITS_BLOCK_SIZE + data.len()) =~= data);
}

/// Writing an 80-byte card over card `i` of the table header, which follows a
/// primary header of one block, rewrites that card of the table header alone.
proof fn lemma_patch_in_file(head: Seq<u8>, cards: Seq<Seq<u8>>, tail: Seq<u8>, i: int, card: Seq<u8>)
    requires
        head.len() == FITS_BLOCK_SIZE,
        all_cards(cards),
        0 <= i < cards.len(),
        card.len() == FITS_CARD_SIZE,
    ensures
        splice(head + header_block_bytes(cards) + tail, FITS_BLOCK_SIZE + i * FITS_CARD_SIZE, card)
            == head + header_block_bytes(cards.update(i, card)) + tail,
        all_cards(cards.update(i, card)),
        cards.update(i, card).len() == cards.len(),
{
    lemma_cards_bytes_len(cards);
    assert(i * FITS_CARD_SIZE + FITS_CARD_SIZE <= cards.len() * FITS_CARD_SIZE) by (nonlinear_arith)
        requires
            i < cards.len(),
    ;
    lemma_patch_card(cards, i, card);
    lemma_splice_within(head, header_block_bytes(cards), tail, i * FITS_CARD_SIZE, card);
    lemma_all_cards_update(cards, i, card);
}

} // verus!
