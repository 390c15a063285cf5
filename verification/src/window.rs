//! The draw window: where display data lands in the controller's memory.
//!
//! The controller has an address counter of its own, which moves on with
//! every data byte it gets and knows nothing of the window. The cursor here
//! follows it, and `draw_frames` says how a stream of bytes must be cut and
//! where the controller must be pointed anew so that the counter never
//! leaves the window.

use vstd::prelude::*;
use vstd::arithmetic::div_mod::{
    lemma_basic_div, lemma_div_plus_one, lemma_fundamental_div_mod,
    lemma_mod_add_multiples_vanish, lemma_mod_bound, lemma_small_mod,
};
use crate::command::Command;
use crate::transfer::{
    command_count, data_bytes, lemma_command_count_concat, lemma_data_bytes_concat, Frame,
};

verus! {

/// A rectangle of the controller's memory, with the place in it where the
/// next data byte lands.
///
/// Columns count bytes; rows count pixels, and a data byte covers the eight
/// rows of one page. The rectangle runs from `start` to `end`, the end
/// excluded, each a pair of column and row.
#[derive(Clone, Copy, Debug, PartialEq, Eq)]
pub struct DrawWindow {
    /// First column and first row of the window.
    pub start: (u8, u8),
    /// Column and row just past the window.
    pub end: (u8, u8),
    /// Column of the cursor.
    pub column: u8,
    /// Row of the cursor.
    pub row: u8,
}

impl DrawWindow {
    /// The cursor lies inside the window on both axes. In particular the
    /// window is not empty.
    pub open spec fn cursor_inside(self) -> bool {
        &&& self.start.0 <= self.column < self.end.0
        &&& self.start.1 <= self.row < self.end.1
    }

    /// Number of bytes that fit between the cursor and the end of its page
    /// row.
    pub open spec fn room(self) -> int {
        self.end.0 - self.column
    }

    /// The row of the page below the cursor's, or the window's first row
    /// where that page lies past the window's end.
    pub open spec fn next_row(self) -> u8 {
        if self.row + 8 >= self.end.1 {
            self.start.1
        } else {
            (self.row + 8) as u8
        }
    }

    /// Whether writing `count` bytes at the cursor takes it to the end of its
    /// page row.
    pub open spec fn fills_row(self, count: int) -> bool {
        self.column + count >= self.end.0
    }

    /// The window after `count` bytes were written at the cursor, for a
    /// `count` of at most `self.room()`. A cursor that reaches the end column
    /// returns to the start column, one page further down.
    pub open spec fn advance(self, count: int) -> DrawWindow {
        if self.fills_row(count) {
            DrawWindow { column: self.start.0, row: self.next_row(), ..self }
        } else {
            DrawWindow { column: (self.column + count) as u8, ..self }
        }
    }

    /// The three commands that point the controller at the cursor: page
    /// address, then the lower and the upper half of the column address.
    pub open spec fn address_frames(self) -> Seq<Frame> {
        seq![
            Command::PageAddress((self.row / 8) as u8).frame(),
            Command::ColumnAddressLow(self.column).frame(),
            Command::ColumnAddressHigh((self.column / 16) as u8).frame(),
        ]
    }

    /// What is sent for one chunk, the first `count` bytes of `data` written
    /// at the cursor: the chunk in one data frame and, when it fills the page
    /// row, the address of the place where the cursor goes.
    pub open spec fn chunk_frames(self, count: int, data: Seq<u8>) -> Seq<Frame> {
        if self.fills_row(count) {
            seq![Frame::Data(data.take(count))] + self.advance(count).address_frames()
        } else {
            seq![Frame::Data(data.take(count))]
        }
    }

    /// Number of bytes of the first chunk when `len` bytes are to be written
    /// at the cursor: as many as fit into the page row.
    pub open spec fn chunk_len(self, len: nat) -> int {
        if self.room() < len {
            self.room()
        } else {
            len as int
        }
    }

    /// What is sent to stream `data` into the window from the cursor on:
    /// chunk after chunk, each cut where its page row ends.
    pub open spec fn draw_frames(self, data: Seq<u8>) -> Seq<Frame>
        decreases data.len(),
    {
        if data.len() == 0 || self.room() <= 0 {
            Seq::empty()
        } else {
            let count = self.chunk_len(data.len());
            self.chunk_frames(count, data) + self.advance(count).draw_frames(data.skip(count))
        }
    }

    /// The window after `len` bytes were streamed into it from the cursor on.
    pub open spec fn after_draw(self, len: nat) -> DrawWindow
        decreases len,
    {
        if len == 0 || self.room() <= 0 {
            self
        } else {
            let count = self.chunk_len(len);
            self.advance(count).after_draw((len - count) as nat)
        }
    }
}

/// The draw window in closed form, and what holds of every stream.
impl DrawWindow {
    /// Number of columns of the window.
    pub open spec fn width(self) -> int {
        self.end.0 - self.start.0
    }

    /// Number of columns between the window's first column and the cursor.
    pub open spec fn offset(self) -> int {
        self.column - self.start.0
    }

    /// Number of pages that the window's rows take, the last of which may
    /// reach past the window's end.
    pub open spec fn pages(self) -> int {
        (self.end.1 - self.start.1 + 7) / 8
    }

    /// Number of pages between the window's first row and the cursor.
    pub open spec fn page(self) -> int {
        (self.row - self.start.1) / 8
    }

    /// The cursor's row is a whole number of pages below the window's first
    /// row, as it is wherever `set_draw_area` or `draw` has left it.
    pub open spec fn page_aligned(self) -> bool {
        (self.row - self.start.1) % 8 == 0
    }

    /// Number of times the cursor reaches the end of a page row while `len`
    /// bytes are written.
    pub open spec fn crossings(self, len: nat) -> int {
        (self.offset() + len) / self.width()
    }

    /// The window with its cursor moved on by `len` bytes, in closed form:
    /// the column wraps round the window's width, and each wrap takes the
    /// row one page further, round the window's pages.
    pub open spec fn moved(self, len: nat) -> DrawWindow {
        DrawWindow {
            column: (self.start.0 + (self.offset() + len) % self.width()) as u8,
            row: (self.start.1 + 8 * ((self.page() + self.crossings(len)) % self.pages())) as u8,
            ..self
        }
    }

    /// Place in a stream of the first byte of its chunk number `k`, counted
    /// from 0: the stream is cut wherever a page row ends.
    pub open spec fn chunk_start(self, k: int) -> int {
        if k * self.width() - self.offset() > 0 {
            k * self.width() - self.offset()
        } else {
            0
        }
    }

    /// Place in a stream of `len` bytes just past the last byte of its chunk
    /// number `k`.
    pub open spec fn chunk_end(self, k: int, len: nat) -> int {
        if (k + 1) * self.width() - self.offset() < len {
            (k + 1) * self.width() - self.offset()
        } else {
            len as int
        }
    }

    /// The three address frames are commands, and carry no display data.
    pub proof fn lemma_address_frames(self)
        ensures
            self.address_frames().len() == 3,
            data_bytes(self.address_frames()) == Seq::<u8>::empty(),
            command_count(self.address_frames()) == 3,
    {
        let f = self.address_frames();
        reveal_with_fuel(data_bytes, 4);
        reveal_with_fuel(command_count, 4);
        assert(f.drop_last().drop_last().drop_last() =~= Seq::<Frame>::empty());
    }

    /// Writing a chunk leaves the cursor inside the window.
    pub proof fn lemma_advance_inside(self, count: int)
        requires
            self.cursor_inside(),
            0 <= count <= self.room(),
        ensures
            self.advance(count).cursor_inside(),
            self.advance(count).start == self.start,
            self.advance(count).end == self.end,
            self.page_aligned() ==> self.advance(count).page_aligned(),
    {
    }

    /// A chunk's frames carry the chunk and, at the end of a page row, three
    /// commands.
    proof fn lemma_chunk_frames(self, count: int, data: Seq<u8>)
        ensures
            data_bytes(self.chunk_frames(count, data)) == data.take(count),
            command_count(self.chunk_frames(count, data)) == if self.fills_row(count) {
                3nat
            } else {
                0nat
            },
    {
        let chunk = seq![Frame::Data(data.take(count))];
        reveal_with_fuel(data_bytes, 2);
        reveal_with_fuel(command_count, 2);
        assert(chunk.drop_last() =~= Seq::<Frame>::empty());
        assert(data_bytes(chunk) =~= data.take(count));
        assert(command_count(chunk) == 0);
        if self.fills_row(count) {
            let address = self.advance(count).address_frames();
            self.advance(count).lemma_address_frames();
            lemma_data_bytes_concat(chunk, address);
            lemma_command_count_concat(chunk, address);
            assert(data_bytes(chunk) + data_bytes(address) =~= data.take(count));
        }
    }

    /// What `draw_frames` sends on the data channel is the stream itself:
    /// every byte once, in order.
    pub proof fn lemma_draw_data(self, data: Seq<u8>)
        requires
            self.cursor_inside(),
        ensures
            data_bytes(self.draw_frames(data)) == data,
        decreases data.len(),
    {
        if data.len() == 0 {
            assert(data_bytes(self.draw_frames(data)) =~= data);
        } else {
            let count = self.chunk_len(data.len());
            let next = self.advance(count);
            self.lemma_advance_inside(count);
            self.lemma_chunk_frames(count, data);
            next.lemma_draw_data(data.skip(count));
            lemma_data_bytes_concat(
                self.chunk_frames(count, data),
                next.draw_frames(data.skip(count)),
            );
            assert(data.take(count) + data.skip(count) =~= data);
        }
    }

    /// The controller is pointed anew exactly where the cursor reaches the
    /// end of a page row: three commands for each such crossing, and no
    /// other.
    pub proof fn lemma_draw_commands(self, data: Seq<u8>)
        requires
            self.cursor_inside(),
        ensures
            command_count(self.draw_frames(data)) == 3 * self.crossings(data.len()),
        decreases data.len(),
    {
        let width = self.width();
        let offset = self.offset();
        if data.len() == 0 {
            lemma_basic_div(offset, width);
        } else {
            let count = self.chunk_len(data.len());
            let next = self.advance(count);
            let rest = data.skip(count);
            self.lemma_advance_inside(count);
            self.lemma_chunk_frames(count, data);
            next.lemma_draw_commands(rest);
            lemma_command_count_concat(self.chunk_frames(count, data), next.draw_frames(rest));
            if self.fills_row(count) {
                assert(next.offset() == 0);
                assert(offset + data.len() == width + rest.len());
                lemma_div_plus_one(rest.len() as int, width);
            } else {
                assert(rest.len() == 0);
                lemma_basic_div(0, width);
                lemma_basic_div(offset + data.len(), width);
            }
        }
    }

    /// The page rows that `len` bytes fill whole, counted from the window's
    /// first column, hold no more than those bytes and the columns before
    /// the cursor, and one page row more would hold more.
    pub proof fn lemma_crossings_bound(self, len: nat)
        requires
            self.cursor_inside(),
        ensures
            0 <= self.crossings(len),
            self.crossings(len) * self.width() <= self.offset() + len,
            self.offset() + len < (self.crossings(len) + 1) * self.width(),
    {
        let width = self.width();
        let total = self.offset() + len;
        lemma_fundamental_div_mod(total, width);
        lemma_mod_bound(total, width);
        assert(width * (total / width) == (total / width) * width) by (nonlinear_arith);
        assert((total / width + 1) * width == (total / width) * width + width)
            by (nonlinear_arith);
        assert(total / width >= 0) by (nonlinear_arith)
            requires
                width > 0,
                (total / width + 1) * width > 0,
        ;
    }

    /// Chunk number `k` of a stream: the bytes between two ends of page rows,
    /// or between one and an end of the stream.
    pub open spec fn chunk(self, data: Seq<u8>, k: int) -> Seq<u8> {
        data.subrange(self.chunk_start(k), self.chunk_end(k, data.len()))
    }

    /// The first chunk of a stream starts the stream and is as long as
    /// `chunk_len` says.
    proof fn lemma_first_chunk(self, len: nat)
        requires
            self.cursor_inside(),
        ensures
            self.chunk_start(0) == 0,
            self.chunk_end(0, len) == self.chunk_len(len),
    {
        assert(0 * self.width() == 0) by (nonlinear_arith);
        assert((0 + 1) * self.width() == self.width()) by (nonlinear_arith);
    }

    /// Behind a first chunk that fills its page row, chunk `k` of the stream
    /// is chunk `k - 1` of the rest of the stream, written from the place
    /// where the first chunk left the cursor.
    proof fn lemma_later_chunk(self, len: nat, k: int)
        requires
            self.cursor_inside(),
            self.room() <= len,
            1 <= k <= self.crossings(len),
        ensures
            self.crossings(len) == 1 + self.advance(self.room()).crossings(
                (len - self.room()) as nat,
            ),
            self.chunk_start(k) == self.advance(self.room()).chunk_start(k - 1) + self.room(),
            self.chunk_end(k, len) == self.advance(self.room()).chunk_end(
                k - 1,
                (len - self.room()) as nat,
            ) + self.room(),
            0 <= self.advance(self.room()).chunk_start(k - 1) <= self.advance(
                self.room(),
            ).chunk_end(k - 1, (len - self.room()) as nat) <= len - self.room(),
            k < self.crossings(len) ==> self.chunk_end(k, len) == (k + 1) * self.width()
                - self.offset(),
    {
        let width = self.width();
        let offset = self.offset();
        let count = self.room();
        let next = self.advance(count);
        let rest = (len - count) as nat;
        let turns = next.crossings(rest);
        self.lemma_advance_inside(count);
        assert(next.offset() == 0);
        assert(next.width() == width);
        assert(offset + len == width + rest);
        lemma_div_plus_one(rest as int, width);
        assert(self.crossings(len) == 1 + turns);
        next.lemma_crossings_bound(rest);
        assert((k + 1) * width == k * width + width) by (nonlinear_arith);
        assert((k - 1) * width == k * width - width) by (nonlinear_arith);
        assert((k - 1) * width <= turns * width) by (nonlinear_arith)
            requires
                k - 1 <= turns,
                width > 0,
        ;
        assert((k - 1) * width >= 0) by (nonlinear_arith)
            requires
                k >= 1,
                width > 0,
        ;
        if k < self.crossings(len) {
            assert(k * width <= turns * width) by (nonlinear_arith)
                requires
                    k <= turns,
                    width > 0,
            ;
        }
    }

    /// A stream that takes the cursor to the end of its page row at least
    /// once starts with a chunk that fills the page row, and its frames are
    /// that chunk's data, the address of the next page row, and the frames
    /// of the rest.
    proof fn lemma_unfold_full_row(self, data: Seq<u8>)
        requires
            self.cursor_inside(),
            1 <= self.crossings(data.len()),
        ensures
            self.room() <= data.len(),
            self.draw_frames(data) == seq![Frame::Data(data.take(self.room()))] + self.advance(
                self.room(),
            ).address_frames() + self.advance(self.room()).draw_frames(data.skip(self.room())),
            forall|stop: nat|
                stop >= self.room() ==> #[trigger] self.after_draw(stop) == self.advance(
                    self.room(),
                ).after_draw((stop - self.room()) as nat),
    {
        let len = data.len();
        self.lemma_crossings_bound(len);
        assert(self.width() <= self.crossings(len) * self.width()) by (nonlinear_arith)
            requires
                1 <= self.crossings(len),
                self.width() > 0,
        ;
        let next = self.advance(self.room());
        assert forall|stop: nat| stop >= self.room() implies #[trigger] self.after_draw(stop)
            == next.after_draw((stop - self.room()) as nat) by {
            assert(self.chunk_len(stop) == self.room());
        }
    }

    /// Frame `4 * k` of a stream is the data of its chunk `k`, and the three
    /// frames behind it are the address of the place where that chunk leaves
    /// the cursor, for every chunk that ends a page row.
    proof fn lemma_full_row_frames(self, data: Seq<u8>, k: int)
        requires
            self.cursor_inside(),
            0 <= k < self.crossings(data.len()),
        ensures
            4 * k + 4 <= self.draw_frames(data).len(),
            self.draw_frames(data)[4 * k] == Frame::Data(self.chunk(data, k)),
            self.draw_frames(data).subrange(4 * k + 1, 4 * k + 4) == self.after_draw(
                self.chunk_end(k, data.len()) as nat,
            ).address_frames(),
        decreases k,
    {
        let len = data.len();
        let count = self.room();
        let next = self.advance(count);
        let rest = data.skip(count);
        let frames = self.draw_frames(data);
        self.lemma_unfold_full_row(data);
        self.lemma_advance_inside(count);
        self.lemma_first_chunk(len);
        next.lemma_address_frames();
        let head = seq![Frame::Data(data.take(count))] + next.address_frames();
        let tail = next.draw_frames(rest);
        assert(head.len() == 4);
        assert(frames == head + tail);
        if k == 0 {
            assert(self.chunk(data, 0) =~= data.take(count));
            assert(frames.subrange(1, 4) =~= next.address_frames());
            assert(next.after_draw(0) == next);
        } else {
            let j = k - 1;
            self.lemma_later_chunk(len, k);
            next.lemma_full_row_frames(rest, j);
            assert(frames[4 * k] == tail[4 * j]);
            assert(next.chunk(rest, j) =~= self.chunk(data, k));
            assert(frames.subrange(4 * k + 1, 4 * k + 4) =~= tail.subrange(4 * j + 1, 4 * j + 4));
        }
    }

    /// A stream has four frames for each chunk that ends a page row. Where
    /// bytes are left behind the last of those, they make one more data
    /// frame, which ends the stream's frames.
    proof fn lemma_last_frame(self, data: Seq<u8>)
        requires
            self.cursor_inside(),
        ensures
            self.chunk_start(self.crossings(data.len())) < data.len() ==> {
                &&& self.draw_frames(data).len() == 4 * self.crossings(data.len()) + 1
                &&& self.draw_frames(data)[4 * self.crossings(data.len())] == Frame::Data(
                    self.chunk(data, self.crossings(data.len())),
                )
            },
            self.chunk_start(self.crossings(data.len())) >= data.len() ==> self.draw_frames(
                data,
            ).len() == 4 * self.crossings(data.len()),
        decreases data.len(),
    {
        let len = data.len();
        let full = self.crossings(len);
        let frames = self.draw_frames(data);
        self.lemma_crossings_bound(len);
        self.lemma_first_chunk(len);
        if full >= 1 {
            let count = self.room();
            let next = self.advance(count);
            let rest = data.skip(count);
            self.lemma_unfold_full_row(data);
            self.lemma_advance_inside(count);
            self.lemma_later_chunk(len, full);
            next.lemma_address_frames();
            next.lemma_last_frame(rest);
            let head = seq![Frame::Data(data.take(count))] + next.address_frames();
            let tail = next.draw_frames(rest);
            let turns = next.crossings(rest.len());
            assert(head.len() == 4);
            assert(frames == head + tail);
            if self.chunk_start(full) < len {
                assert(frames[4 * full] == tail[4 * turns]);
                assert(next.chunk(rest, turns) =~= self.chunk(data, full));
            }
        } else {
            assert(full == 0);
            assert((0 + 1) * self.width() == self.width()) by (nonlinear_arith);
            if len > 0 {
                let count = self.chunk_len(len);
                assert(count == len);
                assert(data.skip(count).len() == 0);
                assert(self.advance(count).draw_frames(data.skip(count)) =~= Seq::<
                    Frame,
                >::empty());
                assert(frames =~= seq![Frame::Data(data.take(count))]);
                assert(self.chunk(data, 0) =~= data.take(count));
            }
        }
    }

    /// The frames of a stream, one by one. Each chunk that ends a page row
    /// takes four frames: its data, then the address of the page row where
    /// the next byte goes. A last chunk that ends before its page row does
    /// takes one, its data.
    pub proof fn lemma_draw_frames_shape(self, data: Seq<u8>)
        requires
            self.cursor_inside(),
        ensures
            self.draw_frames(data).len() == 4 * self.crossings(data.len()) + if self.chunk_start(
                self.crossings(data.len()),
            ) < data.len() {
                1int
            } else {
                0int
            },
            forall|k: int|
                0 <= k < self.crossings(data.len()) ==> {
                    &&& self.draw_frames(data)[4 * k] == Frame::Data(#[trigger] self.chunk(data, k))
                    &&& self.draw_frames(data).subrange(4 * k + 1, 4 * k + 4) == self.after_draw(
                        self.chunk_end(k, data.len()) as nat,
                    ).address_frames()
                },
            self.chunk_start(self.crossings(data.len())) < data.len() ==> self.draw_frames(
                data,
            )[4 * self.crossings(data.len())] == Frame::Data(
                self.chunk(data, self.crossings(data.len())),
            ),
    {
        self.lemma_last_frame(data);
        assert forall|k: int| 0 <= k < self.crossings(data.len()) implies {
            &&& self.draw_frames(data)[4 * k] == Frame::Data(#[trigger] self.chunk(data, k))
            &&& self.draw_frames(data).subrange(4 * k + 1, 4 * k + 4) == self.after_draw(
                self.chunk_end(k, data.len()) as nat,
            ).address_frames()
        } by {
            self.lemma_full_row_frames(data, k);
        }
    }

    /// Where the cursor is after `len` bytes, in closed form.
    pub proof fn lemma_after_draw(self, len: nat)
        requires
            self.cursor_inside(),
            self.page_aligned(),
        ensures
            self.after_draw(len) == self.moved(len),
            self.after_draw(len).cursor_inside(),
            self.after_draw(len).page_aligned(),
        decreases len,
    {
        let width = self.width();
        let offset = self.offset();
        let pages = self.pages();
        let page = self.page();
        assert(0 <= page < pages);
        assert(self.row == self.start.1 + 8 * page);
        if len == 0 {
            lemma_basic_div(offset, width);
            lemma_small_mod(offset as nat, width as nat);
            lemma_small_mod(page as nat, pages as nat);
        } else {
            let count = self.chunk_len(len);
            let next = self.advance(count);
            let rest = (len - count) as nat;
            self.lemma_advance_inside(count);
            next.lemma_after_draw(rest);
            if self.fills_row(count) {
                assert(next.offset() == 0);
                assert(offset + len == width + rest);
                lemma_div_plus_one(rest as int, width);
                lemma_mod_add_multiples_vanish(rest as int, width);
                let turns = next.crossings(rest);
                assert(self.crossings(len) == 1 + turns);
                if self.row + 8 >= self.end.1 {
                    assert(page + 1 == pages);
                    assert(next.page() == 0);
                    lemma_mod_add_multiples_vanish(turns, pages);
                    assert(page + (1 + turns) == pages + turns);
                } else {
                    assert(next.page() == page + 1);
                    assert(page + (1 + turns) == page + 1 + turns);
                }
            } else {
                assert(rest == 0);
                assert(next.after_draw(rest) == next);
                lemma_basic_div(offset + len, width);
                lemma_small_mod((offset + len) as nat, width as nat);
                lemma_small_mod(page as nat, pages as nat);
            }
        }
    }
}

} // verus!
