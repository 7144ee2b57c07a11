//! Small grammars of the document readers: page ranges and slide names.

use crate::order::{in_order, key_views, pick_texts, picked, stable_order};
use crate::text::{
    append_chars, chars_of, decimal, decimal_chars, ends_with, find_first, first_at, is_blank, join,
    join_with, lossy_text, parse_number, parsed_number, push_text, seqs, slice_chars, split,
    split_chars, trim_chars, trimmed, utf8_lossy, views,
};
use vstd::prelude::*;

verus! {

/// The number that the text stands for, or 0 if it stands for none.
pub open spec fn number_or_zero(s: Seq<char>) -> nat {
    match parsed_number(s) {
        Some(n) => n,
        None => 0,
    }
}

/// The pages that one item of a page range asks for, as first and last page.
///
/// An item is a page number, or two page numbers with a dash between them, in
/// either order. Page numbers start at 1; an item that is neither asks for
/// nothing.
pub open spec fn item_range(item: Seq<char>) -> Option<(nat, nat)> {
    let dash = first_at(item, '-');
    if item.len() == 0 {
        None
    } else if dash >= 0 {
        let start = number_or_zero(trimmed(item.take(dash)));
        let end = number_or_zero(trimmed(item.skip(dash + 1)));
        if start == 0 || end == 0 {
            None
        } else if start <= end {
            Some((start, end))
        } else {
            Some((end, start))
        }
    } else {
        match parsed_number(item) {
            Some(page) => if page > 0 {
                Some((page, page))
            } else {
                None
            },
            None => None,
        }
    }
}

/// Whether the range holds the page.
pub open spec fn holds_page(range: Option<(nat, nat)>, page: nat) -> bool {
    match range {
        Some(r) => r.0 <= page && page <= r.1,
        None => false,
    }
}

/// The items of a page range: the pieces between its commas, trimmed.
pub open spec fn items(raw: Seq<char>) -> Seq<Seq<char>> {
    split(raw, ',').map_values(|piece: Seq<char>| trimmed(piece))
}

/// Whether the page range asks for the page: one of its items does.
pub open spec fn asks_for(raw: Seq<char>, page: nat) -> bool {
    exists|k: int| 0 <= k < items(raw).len() && holds_page(#[trigger] item_range(items(raw)[k]), page)
}

/// Whether the pages stand in rising order, none twice.
pub open spec fn rising(pages: Seq<usize>) -> bool {
    forall|i: int, j: int| #![trigger pages[i], pages[j]] 0 <= i < j < pages.len() ==> pages[i] < pages[j]
}

/// The view of an optional exec range.
pub open spec fn range_view(range: Option<(usize, usize)>) -> Option<(nat, nat)> {
    match range {
        Some(r) => Some((r.0 as nat, r.1 as nat)),
        None => None,
    }
}

/// The number that `chars` stands for, or 0.
fn number_or_zero_of(chars: &Vec<char>) -> (n: usize)
    ensures
        n == number_or_zero(chars@),
{
    match parse_number(chars) {
        Some(n) => n,
        None => 0,
    }
}

/// The pages that one item asks for.
fn range_of_item(item: &Vec<char>) -> (range: Option<(usize, usize)>)
    ensures
        range_view(range) == item_range(item@),
{
    if item.len() == 0 {
        return None;
    }
    match find_first(item, '-') {
        Some(dash) => {
            let a = trim_chars(&slice_chars(item, 0, dash));
            let b = trim_chars(&slice_chars(item, dash + 1, item.len()));
            assert(item@.subrange(0, dash as int) == item@.take(dash as int));
            assert(item@.subrange(dash + 1, item.len() as int) == item@.skip(dash + 1));
            let start = number_or_zero_of(&a);
            let end = number_or_zero_of(&b);
            if start == 0 || end == 0 {
                None
            } else if start <= end {
                Some((start, end))
            } else {
                Some((end, start))
            }
        },
        None => match parse_number(item) {
            Some(page) => if page > 0 {
                Some((page, page))
            } else {
                None
            },
            None => None,
        },
    }
}

/// Puts the page into the rising list, unless it is there.
fn insert_page(pages: &mut Vec<usize>, page: usize)
    requires
        rising(old(pages)@),
    ensures
        rising(final(pages)@),
        forall|q: usize|
            #![trigger final(pages)@.contains(q)]
            final(pages)@.contains(q) <==> (old(pages)@.contains(q) || q == page),
{
    let ghost before = pages@;
    let mut at: usize = pages.len();
    while at > 0 && pages[at - 1] > page
        invariant
            at <= pages.len(),
            pages@ == before,
            forall|k: int| at <= k < pages.len() ==> pages@[k] > page,
        decreases at,
    {
        at -= 1;
    }
    if at > 0 && pages[at - 1] == page {
        assert(before.contains(page));
        return ;
    }
    pages.insert(at, page);
    proof {
        assert(pages@ == before.insert(at as int, page));
        assert forall|i: int, j: int|
            #![trigger pages@[i], pages@[j]]
            0 <= i < j < pages.len() implies pages@[i] < pages@[j] by {
            if i < at && j > at {
                assert(pages@[i] == before[i] && pages@[j] == before[j - 1]);
            } else if i < at && j == at {
                assert(pages@[i] == before[i]);
                if i < at - 1 {
                    assert(before[i] < before[at - 1]);
                }
            } else if i == at {
                assert(pages@[j] == before[j - 1]);
            } else if j < at {
                assert(pages@[i] == before[i] && pages@[j] == before[j]);
            } else {
                assert(pages@[i] == before[i - 1] && pages@[j] == before[j - 1]);
            }
        }
        assert forall|q: usize|
            #![trigger pages@.contains(q)]
            pages@.contains(q) <==> (before.contains(q) || q == page) by {
            if pages@.contains(q) {
                let k = choose|k: int| 0 <= k < pages.len() && pages@[k] == q;
                if k < at {
                    assert(before[k] == q);
                } else if k > at {
                    assert(before[k - 1] == q);
                }
            }
            if before.contains(q) {
                let k = choose|k: int| 0 <= k < before.len() && before[k] == q;
                if k < at {
                    assert(pages@[k] == q);
                } else {
                    assert(pages@[k + 1] == q);
                }
            }
            if q == page {
                assert(pages@[at as int] == q);
            }
        }
    }
}

/// Whether one of the first `n` items of the range asks for the page.
pub open spec fn asked_by_first(raw: Seq<char>, n: int, page: nat) -> bool {
    exists|k: int| 0 <= k < n && holds_page(#[trigger] item_range(items(raw)[k]), page)
}

/// The pages that a page range asks for, out of the pages 1 to `max_page`:
/// in rising order, each once.
///
/// The range is a list of items with commas between them; each item is a page
/// number or two page numbers with a dash between them. White space round
/// items and numbers does not count, and items that make no sense are passed
/// over.
pub fn parse_page_range(raw: &str, max_page: usize) -> (pages: Vec<usize>)
    ensures
        rising(pages@),
        forall|page: usize|
            #![trigger pages@.contains(page)]
            pages@.contains(page) <==> (1 <= page <= max_page && asks_for(raw@, page as nat)),
{
    let chars = chars_of(raw);
    let pieces = split_chars(&chars, ',');
    let mut pages: Vec<usize> = Vec::new();
    let ghost n = items(raw@).len() as int;
    let mut i: usize = 0;
    while i < pieces.len()
        invariant
            i <= pieces.len(),
            seqs(pieces@) == split(raw@, ','),
            n == items(raw@).len(),
            n == pieces.len(),
            rising(pages@),
            forall|q: usize|
                #![trigger pages@.contains(q)]
                pages@.contains(q) <==> (1 <= q <= max_page && asked_by_first(raw@, i as int, q as nat)),
        decreases pieces.len() - i,
    {
        let item = trim_chars(&pieces[i]);
        assert(item@ == items(raw@)[i as int]);
        let range = range_of_item(&item);
        let ghost sofar = pages@;
        match range {
            Some((from, to)) => {
                let top: usize = if to <= max_page {
                    to
                } else {
                    max_page
                };
                if from <= top {
                    let mut page: usize = from;
                    loop
                        invariant_except_break
                            forall|q: usize|
                                #![trigger pages@.contains(q)]
                                pages@.contains(q) <==> (sofar.contains(q) || from <= q < page),
                        invariant
                            1 <= from <= page <= top,
                            top <= to,
                            top <= max_page,
                            rising(pages@),
                        ensures
                            rising(pages@),
                            forall|q: usize|
                                #![trigger pages@.contains(q)]
                                pages@.contains(q) <==> (sofar.contains(q) || from <= q <= top),
                        decreases top - page,
                    {
                        insert_page(&mut pages, page);
                        if page == top {
                            break;
                        }
                        page += 1;
                    }
                }
            },
            None => {},
        }
        proof {
            assert forall|q: usize|
                #![trigger pages@.contains(q)]
                pages@.contains(q) <==> (1 <= q <= max_page && asked_by_first(
                    raw@,
                    i + 1,
                    q as nat,
                )) by {
                let here = holds_page(item_range(items(raw@)[i as int]), q as nat);
                if 1 <= q <= max_page && asked_by_first(raw@, i + 1, q as nat) {
                    let k = choose|k: int|
                        0 <= k < i + 1 && holds_page(#[trigger] item_range(items(raw@)[k]), q as nat);
                    if k < i {
                        assert(asked_by_first(raw@, i as int, q as nat));
                    }
                }
                if sofar.contains(q) {
                    let k = choose|k: int|
                        0 <= k < i && holds_page(#[trigger] item_range(items(raw@)[k]), q as nat);
                    assert(0 <= k < i + 1);
                }
                if here && 1 <= q <= max_page {
                    assert(holds_page(item_range(items(raw@)[i as int]), q as nat));
                }
            }
        }
        i += 1;
    }
    assert forall|page: usize|
        #![trigger pages@.contains(page)]
        pages@.contains(page) <==> (1 <= page <= max_page && asks_for(raw@, page as nat)) by {
        assert(asked_by_first(raw@, n, page as nat) == asks_for(raw@, page as nat));
    }
    pages
}

/// The number of a slide, from the name of its file inside a presentation:
/// `slide<n>.xml` in any directory names slide `n`; any other name gives 0.
pub open spec fn slide_index(name: Seq<char>) -> nat {
    let file = split(name, '/').last();
    let base = if ".xml"@.is_suffix_of(file) {
        file.take(file.len() - ".xml"@.len())
    } else {
        name
    };
    if "slide"@.is_prefix_of(base) {
        number_or_zero(base.skip("slide"@.len() as int))
    } else {
        0
    }
}

/// The number of the slide that the file of this name holds, or 0.
pub fn extract_slide_index(name: &str) -> (index: usize)
    ensures
        index == slide_index(name@),
{
    let chars = chars_of(name);
    let mut pieces = split_chars(&chars, '/');
    proof {
        crate::text::lemma_split_pieces(chars@, '/');
    }
    let ghost all = seqs(pieces@);
    let file = pieces.pop().unwrap();
    assert(file@ == all.last());
    let xml = chars_of(".xml");
    let base = if ends_with(&file, &xml) {
        let cut = slice_chars(&file, 0, file.len() - xml.len());
        assert(file@.subrange(0, file.len() - xml.len()) == file@.take(file.len() - xml.len()));
        cut
    } else {
        chars
    };
    let slide = chars_of("slide");
    if crate::text::begins_with(&base, &slide) {
        let rest = slice_chars(&base, slide.len(), base.len());
        assert(base@.subrange(slide.len() as int, base.len() as int) == base@.skip(
            slide.len() as int,
        ));
        number_or_zero_of(&rest)
    } else {
        0
    }
}

/// Whether the name is that of a slide inside a presentation: it starts
/// with `ppt/slides/slide` and ends with `.xml`.
pub open spec fn slide_name(name: Seq<char>) -> bool {
    "ppt/slides/slide"@.is_prefix_of(name) && ".xml"@.is_suffix_of(name)
}

/// Whether the name is that of a slide inside a presentation.
pub fn is_slide_name(name: &str) -> (yes: bool)
    ensures
        yes == slide_name(name@),
{
    let chars = chars_of(name);
    crate::text::begins_with(&chars, &chars_of("ppt/slides/slide")) && ends_with(
        &chars,
        &chars_of(".xml"),
    )
}

/// The keys by which slides are ordered: their numbers.
pub open spec fn slide_keys(names: Seq<Seq<char>>) -> Seq<Seq<u64>> {
    names.map_values(|name: Seq<char>| seq![slide_index(name) as u64])
}

/// The slides in the order of their numbers; slides with one number stay as
/// they came.
pub fn order_slides(names: &Vec<String>) -> (ordered: Vec<String>)
    ensures
        exists|order: Seq<usize>|
            #[trigger] in_order(slide_keys(views(names@)), order) && views(ordered@) == picked(
                views(names@),
                order,
            ),
{
    let mut keys: Vec<Vec<u64>> = Vec::new();
    let mut i: usize = 0;
    while i < names.len()
        invariant
            i <= names.len(),
            keys.len() == i,
            forall|k: int| 0 <= k < i ==> (#[trigger] keys@[k])@ == seq![slide_index(names@[k]@) as u64],
        decreases names.len() - i,
    {
        let mut key: Vec<u64> = Vec::new();
        key.push(extract_slide_index(names[i].as_str()) as u64);
        assert(key@ =~= seq![slide_index(names@[i as int]@) as u64]);
        keys.push(key);
        i += 1;
    }
    assert(key_views(keys@) =~= slide_keys(views(names@)));
    let order = stable_order(&keys);
    pick_texts(names, &order)
}

/// The number under which a slide is shown: its own, or 1 where it has none.
pub open spec fn shown_slide_number(index: nat) -> nat {
    if index == 0 {
        1
    } else {
        index
    }
}

/// The section of one slide: a heading with its number, and its texts with
/// blanks between them, or a note that it has none.
pub open spec fn slide_section_of(index: nat, texts: Seq<Seq<char>>) -> Seq<char> {
    "# Slide "@ + decimal(shown_slide_number(index)) + seq!['\n'] + (if texts.len() == 0 {
        "[空白或无文本]\n\n"@
    } else {
        join_with(texts, " "@) + seq!['\n', '\n']
    })
}

/// The section of the slide with the given number and texts.
pub fn slide_section(index: usize, texts: &Vec<String>) -> (section: String)
    ensures
        section@ == slide_section_of(index as nat, views(texts@)),
{
    let shown: usize = if index == 0 {
        1
    } else {
        index
    };
    let mut section = "# Slide ".to_string();
    append_chars(&mut section, &decimal_chars(shown as u128));
    section.append("\n");
    proof {
        reveal_strlit("\n");
        assert("\n"@ =~= seq!['\n']);
    }
    if texts.len() == 0 {
        section.append("[空白或无文本]\n\n");
    } else {
        let joined = join(texts, " ");
        section.append(joined.as_str());
        section.append("\n\n");
        proof {
            reveal_strlit("\n\n");
            assert("\n\n"@ =~= seq!['\n', '\n']);
        }
    }
    section
}

/// The lines of a sheet: one for each row that is not blank, its cells with
/// tabs between them.
pub open spec fn sheet_lines(rows: Seq<Seq<Seq<char>>>) -> Seq<char>
    decreases rows.len(),
{
    if rows.len() == 0 {
        Seq::empty()
    } else {
        let line = join_with(rows.last(), seq!['\t']);
        sheet_lines(rows.drop_last()) + (if trimmed(line).len() == 0 {
            Seq::empty()
        } else {
            line + seq!['\n']
        })
    }
}

/// The section of one sheet: a heading with its name, its lines, and an
/// empty line.
pub open spec fn sheet_section_of(name: Seq<char>, rows: Seq<Seq<Seq<char>>>) -> Seq<char> {
    "# Sheet: "@ + name + seq!['\n'] + sheet_lines(rows) + seq!['\n']
}

/// The views of the rows of a sheet.
pub open spec fn row_views(rows: Seq<Vec<String>>) -> Seq<Seq<Seq<char>>> {
    rows.map_values(|row: Vec<String>| views(row@))
}

/// The section of the sheet with the given name and rows of cells.
pub fn sheet_section(name: &str, rows: &Vec<Vec<String>>) -> (section: String)
    ensures
        section@ == sheet_section_of(name@, row_views(rows@)),
{
    let mut section = "# Sheet: ".to_string();
    section.append(name);
    section.append("\n");
    proof {
        reveal_strlit("\n");
        reveal_strlit("\t");
        assert("\n"@ =~= seq!['\n']);
        assert("\t"@ =~= seq!['\t']);
    }
    let ghost head = section@;
    let ghost all = row_views(rows@);
    let mut i: usize = 0;
    assert(section@ =~= head + sheet_lines(all.take(0)));
    while i < rows.len()
        invariant
            i <= rows.len(),
            all == row_views(rows@),
            "\n"@ == seq!['\n'],
            "\t"@ == seq!['\t'],
            section@ == head + sheet_lines(all.take(i as int)),
        decreases rows.len() - i,
    {
        proof {
            assert(all.take(i + 1).drop_last() == all.take(i as int));
            assert(all.take(i + 1).last() == views(rows@[i as int]@));
        }
        let line = join(&rows[i], "\t");
        if !is_blank(line.as_str()) {
            section.append(line.as_str());
            section.append("\n");
        }
        assert(section@ =~= head + sheet_lines(all.take(i + 1)));
        i += 1;
    }
    assert(all.take(rows.len() as int) == all);
    section.append("\n");
    section
}

/// How many bytes of a file are read as plain text: all of it, up to
/// `max_bytes`.
pub fn plain_read_len(file_len: u64, max_bytes: u64) -> (len: u64)
    ensures
        len == (if file_len <= max_bytes {
            file_len
        } else {
            max_bytes
        }),
{
    if file_len <= max_bytes {
        file_len
    } else {
        max_bytes
    }
}

/// What is handed on of a file that is read as plain text: the text of the
/// bytes that were read; and where the file is longer than `max_bytes`, a
/// note behind the text, the flag, and a warning.
pub open spec fn plain_text_of(bytes: Seq<u8>, file_len: u64, max_bytes: u64) -> (
    Seq<char>,
    bool,
    Seq<Seq<char>>,
) {
    if file_len > max_bytes {
        (
            utf8_lossy(bytes) + "\n\n[内容已截断：原始文件超过 "@ + decimal(max_bytes as nat) + " 字节]"@,
            true,
            seq!["文件按字节上限截断"@],
        )
    } else {
        (utf8_lossy(bytes), false, Seq::empty())
    }
}

/// What is handed on of a file of `file_len` bytes of which `bytes` were
/// read as plain text.
pub fn parse_plain_text(bytes: &[u8], file_len: u64, max_bytes: u64) -> (out: (String, bool, Vec<String>))
    ensures
        (out.0@, out.1, views(out.2@)) == plain_text_of(bytes@, file_len, max_bytes),
{
    let mut text = lossy_text(bytes);
    let mut warnings: Vec<String> = Vec::new();
    assert(views(warnings@) =~= Seq::empty());
    if file_len > max_bytes {
        push_text(&mut warnings, "文件按字节上限截断");
        assert(views(warnings@) =~= seq!["文件按字节上限截断"@]);
        text.append("\n\n[内容已截断：原始文件超过 ");
        append_chars(&mut text, &decimal_chars(max_bytes as u128));
        text.append(" 字节]");
        (text, true, warnings)
    } else {
        (text, false, warnings)
    }
}

/// What is handed on of a text that was read out of a document: the text,
/// whether it was cut, and the warnings.
pub open spec fn extracted(
    label: Seq<char>,
    text: Seq<char>,
    max_chars: nat,
) -> (Seq<char>, bool, Seq<Seq<char>>) {
    let cut = crate::attachment_commands::file_utils::truncated_text(text, max_chars);
    (
        cut.0,
        cut.1,
        if cut.1 {
            seq![label + " 文本按字符上限截断"@]
        } else {
            Seq::empty()
        },
    )
}

/// What is handed on of a spreadsheet: a note, where it has no sheets or
/// its sheets hold no text; else the text of its sheets, cut to `max_chars`
/// characters.
pub open spec fn xlsx_text(sheets: nat, text: Seq<char>, max_chars: nat) -> (
    Seq<char>,
    bool,
    Seq<Seq<char>>,
) {
    if sheets == 0 {
        ("该表格没有可读取的工作表。"@, false, Seq::empty())
    } else if trimmed(text).len() == 0 {
        ("该表格没有可读取的文本单元格。"@, false, Seq::empty())
    } else {
        extracted("XLSX"@, text, max_chars)
    }
}

/// What is handed on of a presentation: a note, where it has no slides;
/// else the text of its slides, cut to `max_chars` characters.
pub open spec fn pptx_text(slides: nat, text: Seq<char>, max_chars: nat) -> (
    Seq<char>,
    bool,
    Seq<Seq<char>>,
) {
    if slides == 0 {
        ("该演示文稿没有可读取的幻灯片。"@, false, Seq::empty())
    } else {
        extracted("PPTX"@, text, max_chars)
    }
}

/// The text cut to `max_chars` characters, with the warning of the kind of
/// document named by `label`.
fn finish(label: &str, text: String, max_chars: usize) -> (out: (String, bool, Vec<String>))
    ensures
        (out.0@, out.1, views(out.2@)) == extracted(label@, text@, max_chars as nat),
{
    let (content, truncated) = crate::attachment_commands::file_utils::truncate_text_by_chars(
        text,
        max_chars,
    );
    let mut warnings: Vec<String> = Vec::new();
    assert(views(warnings@) =~= Seq::empty());
    if truncated {
        let mut warning = label.to_string();
        warning.append(" 文本按字符上限截断");
        let ghost before = warnings@;
        warnings.push(warning);
        proof {
            crate::text::lemma_views_push(before, warning);
            assert(views(warnings@) =~= seq![label@ + " 文本按字符上限截断"@]);
        }
    }
    (content, truncated, warnings)
}

/// What is handed on of the text of a PDF: the text cut to `max_chars`
/// characters, with the warning that goes with the cut.
pub fn finish_pdf(text: String, max_chars: usize) -> (out: (String, bool, Vec<String>))
    ensures
        (out.0@, out.1, views(out.2@)) == extracted("PDF"@, text@, max_chars as nat),
{
    finish("PDF", text, max_chars)
}

/// What is handed on of the text of a word-processor document: the text cut
/// to `max_chars` characters, with the warning that goes with the cut.
pub fn finish_docx(text: String, max_chars: usize) -> (out: (String, bool, Vec<String>))
    ensures
        (out.0@, out.1, views(out.2@)) == extracted("DOCX"@, text@, max_chars as nat),
{
    finish("DOCX", text, max_chars)
}

/// What is handed on of a spreadsheet with `sheets` sheets whose sections
/// make up `text`.
pub fn finish_xlsx(sheets: usize, text: String, max_chars: usize) -> (out: (String, bool, Vec<String>))
    ensures
        (out.0@, out.1, views(out.2@)) == xlsx_text(sheets as nat, text@, max_chars as nat),
{
    if sheets == 0 {
        let warnings: Vec<String> = Vec::new();
        assert(views(warnings@) =~= Seq::empty());
        return ("该表格没有可读取的工作表。".to_string(), false, warnings);
    }
    if is_blank(text.as_str()) {
        let warnings: Vec<String> = Vec::new();
        assert(views(warnings@) =~= Seq::empty());
        return ("该表格没有可读取的文本单元格。".to_string(), false, warnings);
    }
    finish("XLSX", text, max_chars)
}

/// What is handed on of a presentation with `slides` slides whose sections
/// make up `text`.
pub fn finish_pptx(slides: usize, text: String, max_chars: usize) -> (out: (String, bool, Vec<String>))
    ensures
        (out.0@, out.1, views(out.2@)) == pptx_text(slides as nat, text@, max_chars as nat),
{
    if slides == 0 {
        let warnings: Vec<String> = Vec::new();
        assert(views(warnings@) =~= Seq::empty());
        return ("该演示文稿没有可读取的幻灯片。".to_string(), false, warnings);
    }
    finish("PPTX", text, max_chars)
}

} // verus!
