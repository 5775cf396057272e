//! The framebuffer as mathematics: a frame is one packed colour per pixel,
//! row by row; its bytes are each colour's high byte followed by its low
//! byte.

use vstd::prelude::*;

verus! {

/// Pixels in a frame.
pub const PIXEL_COUNT: usize = 57600;

/// The place of pixel `(x, y)` in a frame: rows from the top, 240 pixels to
/// a row.
pub open spec fn pixel_index(x: int, y: int) -> int {
    y * 240 + x
}

/// The packed colour that two bytes spell, high byte first.
pub open spec fn word_of(high: u8, low: u8) -> u16 {
    (high * 256 + low) as u16
}

/// The frame that a byte string holds: one packed colour for each pair of
/// bytes.
pub open spec fn frame_of(bytes: Seq<u8>) -> Seq<u16> {
    Seq::new((bytes.len() / 2) as nat, |i: int| word_of(bytes[2 * i], bytes[2 * i + 1]))
}

/// The bytes that transmit a frame: for each pixel in turn the high byte of
/// its packed colour, then the low byte, with nothing in between.
pub open spec fn bytes_of(frame: Seq<u16>) -> Seq<u8> {
    Seq::new(
        2 * frame.len(),
        |j: int|
            if j % 2 == 0 {
                (frame[j / 2] / 256) as u8
            } else {
                (frame[j / 2] % 256) as u8
            },
    )
}

/// A frame of one colour.
pub open spec fn solid_frame(packed: u16) -> Seq<u16> {
    Seq::new(PIXEL_COUNT as nat, |i: int| packed)
}

/// A byte string of even length is the bytes of the frame it holds.
pub proof fn lemma_bytes_of_frame(bytes: Seq<u8>)
    requires
        bytes.len() % 2 == 0,
    ensures
        bytes_of(frame_of(bytes)) == bytes,
{
    let frame = frame_of(bytes);
    assert(bytes_of(frame).len() == bytes.len());
    assert forall|j: int| 0 <= j < bytes.len() implies bytes_of(frame)[j] == bytes[j] by {
        let k = j / 2;
        let high = bytes[2 * k];
        let low = bytes[2 * k + 1];
        assert(frame[k] == word_of(high, low));
        assert(word_of(high, low) / 256 == high && word_of(high, low) % 256 == low);
    }
    assert(bytes_of(frame) =~= bytes);
}

/// A frame is the frame that its bytes hold.
pub proof fn lemma_frame_of_bytes(frame: Seq<u16>)
    ensures
        frame_of(bytes_of(frame)) == frame,
{
    let bytes = bytes_of(frame);
    assert(frame_of(bytes).len() == frame.len());
    assert forall|i: int| 0 <= i < frame.len() implies frame_of(bytes)[i] == frame[i] by {
        assert(bytes[2 * i] == (frame[i] / 256) as u8);
        assert(bytes[2 * i + 1] == (frame[i] % 256) as u8);
    }
    assert(frame_of(bytes) =~= frame);
}

/// Writing a colour's two bytes at a pixel's place changes that pixel of
/// the frame and no other.
pub proof fn lemma_store_pixel(bytes: Seq<u8>, index: int, color: u16)
    requires
        0 <= index,
        2 * index + 1 < bytes.len(),
    ensures
        frame_of(
            bytes.update(2 * index, (color / 256) as u8).update(
                2 * index + 1,
                (color % 256) as u8,
            ),
        ) == frame_of(bytes).update(index, color),
{
    let stored = bytes.update(2 * index, (color / 256) as u8).update(
        2 * index + 1,
        (color % 256) as u8,
    );
    assert(frame_of(stored).len() == frame_of(bytes).len());
    assert forall|i: int| 0 <= i < frame_of(stored).len() implies frame_of(stored)[i]
        == frame_of(bytes).update(index, color)[i] by {
        if i == index {
            assert(word_of((color / 256) as u8, (color % 256) as u8) == color);
        }
    }
    assert(frame_of(stored) =~= frame_of(bytes).update(index, color));
}

} // verus!
