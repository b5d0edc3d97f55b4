//! HTTP side of the eye camera server: which resource a request asks for, and the bytes of the
//! responses.
use crate::server::Eye;
use crate::text::{
    ascii_lowercase, chars_of, decimal, digits_value, is_space, is_white_space,
    law_decimal_reads_back, law_one_word_has_no_second, law_second_word_stands_between_spaces,
    leading_digits, lowercase, push_decimal, push_text, second_word, skip_spaces, skip_word,
    to_lowercase,
};
use vstd::prelude::*;
use vstd::string::*;
use vstd::utf8::{encode_utf8, is_ascii_chars, is_ascii_chars_encode_utf8};

verus! {

#[derive(Clone, Copy, PartialEq, Eq, Structural, Debug)]
pub enum Route {
    /// A stream of JPEG images of this eye.
    Multipart(Eye),
    /// One JPEG image of this eye.
    Single(Eye),
    /// The list of resources.
    Index,
    NotFound,
}

/// The route of a path in lower case.
pub open spec fn route_of(path: Seq<char>) -> Route {
    if path == "/left.mjpg"@ || path == "/left.mjpeg"@ {
        Route::Multipart(Eye::Left)
    } else if path == "/right.mjpg"@ || path == "/right.mjpeg"@ {
        Route::Multipart(Eye::Right)
    } else if path == "/left.jpg"@ || path == "/left.jpeg"@ {
        Route::Single(Eye::Left)
    } else if path == "/right.jpg"@ || path == "/right.jpeg"@ {
        Route::Single(Eye::Right)
    } else if path == "/"@ {
        Route::Index
    } else {
        Route::NotFound
    }
}

fn is_text(path: &String, text: &str) -> (b: bool)
    ensures
        b == (path@ == text@),
{
    *path == text.to_owned()
}

/// The route of a path in lower case.
pub fn route(path: &String) -> (route: Route)
    ensures
        route == route_of(path@),
{
    if is_text(path, "/left.mjpg") || is_text(path, "/left.mjpeg") {
        Route::Multipart(Eye::Left)
    } else if is_text(path, "/right.mjpg") || is_text(path, "/right.mjpeg") {
        Route::Multipart(Eye::Right)
    } else if is_text(path, "/left.jpg") || is_text(path, "/left.jpeg") {
        Route::Single(Eye::Left)
    } else if is_text(path, "/right.jpg") || is_text(path, "/right.jpeg") {
        Route::Single(Eye::Right)
    } else if is_text(path, "/") {
        Route::Index
    } else {
        Route::NotFound
    }
}

/// The path in a request line: its second word, or the root where it has none.
pub open spec fn path_of(request_line: Seq<char>) -> Seq<char> {
    match second_word(request_line) {
        Some(path) => path,
        None => "/"@,
    }
}

/// The path in a request line.
pub fn request_path(request_line: &str) -> (path: String)
    ensures
        path@ == path_of(request_line@),
{
    let chars: Vec<char> = chars_of(request_line);
    let mut start: usize = 0;
    while start < chars.len() && is_white_space(chars[start])
        invariant
            start <= chars@.len(),
            skip_spaces(chars@, start as int) == skip_spaces(chars@, 0),
        decreases chars@.len() - start,
    {
        start += 1;
    }
    let ghost first_word = start as int;
    while start < chars.len() && !is_white_space(chars[start])
        invariant
            first_word == skip_spaces(chars@, 0),
            start <= chars@.len(),
            skip_word(chars@, start as int) == skip_word(chars@, first_word),
        decreases chars@.len() - start,
    {
        start += 1;
    }
    let ghost gap = start as int;
    while start < chars.len() && is_white_space(chars[start])
        invariant
            gap == skip_word(chars@, skip_spaces(chars@, 0)),
            start <= chars@.len(),
            skip_spaces(chars@, start as int) == skip_spaces(chars@, gap),
        decreases chars@.len() - start,
    {
        start += 1;
    }
    if start == chars.len() {
        return "/".to_owned();
    }
    let mut end: usize = start;
    while end < chars.len() && !is_white_space(chars[end])
        invariant
            start <= end <= chars@.len(),
            skip_word(chars@, end as int) == skip_word(chars@, start as int),
        decreases chars@.len() - end,
    {
        end += 1;
    }
    request_line.substring_char(start, end).to_owned()
}

/// The route that a request line asks for. Upper and lower case are not told apart.
pub fn requested_route(request_line: &str) -> (r: Route)
    ensures
        r == route_of(lowercase(path_of(request_line@))),
        is_ascii_chars(path_of(request_line@)) ==> r == route_of(
            path_of(request_line@).map_values(|c: char| ascii_lowercase(c)),
        ),
{
    let path: String = request_path(request_line);
    let lower: String = to_lowercase(path.as_str());
    route(&lower)
}

/// A line without anything but white space.
pub open spec fn is_blank(line: Seq<char>) -> bool {
    forall|i: int| 0 <= i < line.len() ==> is_space(#[trigger] line[i])
}

/// Whether more header lines may follow the one that was just read: the read gave some bytes,
/// and not a blank line.
pub fn more_headers(read: Option<usize>, line: &str) -> (more: bool)
    ensures
        more == ((read matches Some(count) && count > 0) && !is_blank(line@)),
{
    match read {
        Some(count) => {
            if count == 0 {
                return false;
            }
        },
        None => {
            return false;
        },
    }
    let chars: Vec<char> = chars_of(line);
    let mut i: usize = 0;
    while i < chars.len()
        invariant
            i <= chars@.len(),
            chars@ == line@,
            forall|j: int| 0 <= j < i ==> is_space(#[trigger] chars@[j]),
            read matches Some(count) && count > 0,
        decreases chars@.len() - i,
    {
        if !is_white_space(chars[i]) {
            assert(!is_space(line@[i as int]));
            return true;
        }
        i += 1;
    }
    false
}

/// Why sending a response failed.
#[derive(Clone, Copy, PartialEq, Eq, Structural, Debug)]
pub enum SendError {
    BrokenPipe,
    ConnectionReset,
    ConnectionAborted,
    Other,
}

/// Whether a failure deserves a warning. A client that went away does not.
pub fn is_unexpected(error: SendError) -> (b: bool)
    ensures
        b == (error is Other),
{
    error == SendError::Other
}

pub const MULTIPART_BOUNDARY: &'static str = "alvr-eye-camera-frame";

/// The list of resources.
pub open spec fn index_bytes() -> Seq<u8> {
    encode_utf8(
        "HTTP/1.1 200 OK\r\nContent-Type: text/plain\r\nConnection: close\r\n\r\nALVR eye cameras\n/left.mjpg\n/right.mjpg\n/left.jpg\n/right.jpg\n"@,
    )
}

fn index_response() -> (response: Vec<u8>)
    ensures
        response@ == index_bytes(),
{
    let mut response: Vec<u8> = Vec::new();
    push_text(
        &mut response,
        "HTTP/1.1 200 OK\r\nContent-Type: text/plain\r\nConnection: close\r\n\r\nALVR eye cameras\n/left.mjpg\n/right.mjpg\n/left.jpg\n/right.jpg\n",
    );
    assert(response@ =~= index_bytes());
    response
}

pub open spec fn not_found_bytes() -> Seq<u8> {
    encode_utf8("HTTP/1.1 404 Not Found\r\nConnection: close\r\n\r\n"@)
}

fn not_found_response() -> (response: Vec<u8>)
    ensures
        response@ == not_found_bytes(),
{
    let mut response: Vec<u8> = Vec::new();
    push_text(&mut response, "HTTP/1.1 404 Not Found\r\nConnection: close\r\n\r\n");
    assert(response@ =~= not_found_bytes());
    response
}

/// The response to a request that asks for no image.
pub fn fixed_response(route: Route) -> (response: Option<Vec<u8>>)
    ensures
        match route {
            Route::Index => response matches Some(response) && response@ == index_bytes(),
            Route::NotFound => response matches Some(response) && response@ == not_found_bytes(),
            _ => response is None,
        },
{
    match route {
        Route::Index => Some(index_response()),
        Route::NotFound => Some(not_found_response()),
        _ => None,
    }
}

/// The head of a stream of images, which names the boundary between its parts.
pub open spec fn multipart_head_bytes() -> Seq<u8> {
    encode_utf8(
        "HTTP/1.1 200 OK\r\nContent-Type: multipart/x-mixed-replace; boundary="@,
    ) + encode_utf8(MULTIPART_BOUNDARY@) + encode_utf8(
        "\r\nCache-Control: no-cache, no-store\r\nPragma: no-cache\r\nConnection: close\r\n\r\n"@,
    )
}

pub fn multipart_head() -> (head: Vec<u8>)
    ensures
        head@ == multipart_head_bytes(),
{
    let mut head: Vec<u8> = Vec::new();
    push_text(
        &mut head,
        "HTTP/1.1 200 OK\r\nContent-Type: multipart/x-mixed-replace; boundary=",
    );
    push_text(&mut head, MULTIPART_BOUNDARY);
    push_text(
        &mut head,
        "\r\nCache-Control: no-cache, no-store\r\nPragma: no-cache\r\nConnection: close\r\n\r\n",
    );
    assert(head@ =~= multipart_head_bytes());
    head
}

/// What comes before the length in the head of a part.
pub open spec fn part_start() -> Seq<u8> {
    encode_utf8("--"@) + encode_utf8(MULTIPART_BOUNDARY@) + encode_utf8(
        "\r\nContent-Type: image/jpeg\r\nContent-Length: "@,
    )
}

/// The end of a head.
pub open spec fn head_end() -> Seq<u8> {
    encode_utf8("\r\n\r\n"@)
}

pub open spec fn line_end() -> Seq<u8> {
    encode_utf8("\r\n"@)
}

/// One image in a stream of images.
pub open spec fn part_bytes(jpeg: Seq<u8>) -> Seq<u8> {
    part_start() + decimal(jpeg.len()) + head_end() + jpeg + line_end()
}

/// One image in a stream of images.
pub fn multipart_part(jpeg: &Vec<u8>) -> (part: Vec<u8>)
    ensures
        part@ == part_bytes(jpeg@),
{
    let mut part: Vec<u8> = Vec::new();
    push_text(&mut part, "--");
    push_text(&mut part, MULTIPART_BOUNDARY);
    push_text(&mut part, "\r\nContent-Type: image/jpeg\r\nContent-Length: ");
    push_decimal(&mut part, jpeg.len());
    push_text(&mut part, "\r\n\r\n");
    part.extend_from_slice(jpeg.as_slice());
    push_text(&mut part, "\r\n");
    assert(part@ =~= part_bytes(jpeg@));
    part
}

/// What comes before the length in the head of a single image.
pub open spec fn single_start() -> Seq<u8> {
    encode_utf8("HTTP/1.1 200 OK\r\nContent-Type: image/jpeg\r\nContent-Length: "@)
}

/// What comes after the length in the head of a single image.
pub open spec fn single_head_end() -> Seq<u8> {
    encode_utf8("\r\nCache-Control: no-cache, no-store\r\nConnection: close\r\n\r\n"@)
}

/// The response to a request for one image: the image, or that there is none.
pub open spec fn single_bytes(jpeg: Option<Seq<u8>>) -> Seq<u8> {
    match jpeg {
        Some(jpeg) => single_start() + decimal(jpeg.len()) + single_head_end() + jpeg,
        None => encode_utf8("HTTP/1.1 503 Service Unavailable\r\nConnection: close\r\n\r\n"@),
    }
}

/// The response to a request for one image.
pub fn single_response(jpeg: Option<&Vec<u8>>) -> (response: Vec<u8>)
    ensures
        response@ == single_bytes(
            match jpeg {
                Some(jpeg) => Some(jpeg@),
                None => None,
            },
        ),
{
    let mut response: Vec<u8> = Vec::new();
    match jpeg {
        Some(jpeg) => {
            push_text(
                &mut response,
                "HTTP/1.1 200 OK\r\nContent-Type: image/jpeg\r\nContent-Length: ",
            );
            push_decimal(&mut response, jpeg.len());
            push_text(
                &mut response,
                "\r\nCache-Control: no-cache, no-store\r\nConnection: close\r\n\r\n",
            );
            response.extend_from_slice(jpeg.as_slice());
            assert(response@ =~= single_bytes(Some(jpeg@)));
        },
        None => {
            push_text(
                &mut response,
                "HTTP/1.1 503 Service Unavailable\r\nConnection: close\r\n\r\n",
            );
            assert(response@ =~= single_bytes(None));
        },
    }
    response
}

/// The images of a stream, one after the other.
pub open spec fn parts_bytes(jpegs: Seq<Seq<u8>>) -> Seq<u8>
    decreases jpegs.len(),
{
    if jpegs.len() == 0 {
        Seq::empty()
    } else {
        part_bytes(jpegs[0]) + parts_bytes(jpegs.skip(1))
    }
}

/// What a client reads that goes by the length in the head: the image of the first part, and the
/// bytes behind it.
pub open spec fn read_part(bytes: Seq<u8>) -> Option<(Seq<u8>, Seq<u8>)> {
    if !part_start().is_prefix_of(bytes) {
        None
    } else {
        let after_start = bytes.skip(part_start().len() as int);
        let digits = leading_digits(after_start) as int;
        let len = digits_value(after_start.take(digits)) as int;
        let after_length = after_start.skip(digits);
        if !head_end().is_prefix_of(after_length) {
            None
        } else {
            let data = after_length.skip(head_end().len() as int);
            if len > data.len() || !line_end().is_prefix_of(data.skip(len)) {
                None
            } else {
                Some((data.take(len), data.skip(len).skip(line_end().len() as int)))
            }
        }
    }
}

/// A client that goes by the length in the head reads every image of a stream back, whatever
/// bytes it holds, and finds the next part behind it.
pub proof fn law_part_reads_back(jpeg: Seq<u8>, rest: Seq<u8>)
    ensures
        read_part(part_bytes(jpeg) + rest) == Some((jpeg, rest)),
{
    let bytes = part_bytes(jpeg) + rest;
    let data = jpeg + (line_end() + rest);
    let after_length = head_end() + data;
    let after_start = decimal(jpeg.len()) + after_length;
    assert(bytes =~= part_start() + after_start);
    assert(part_start().is_prefix_of(bytes));
    assert(bytes.skip(part_start().len() as int) =~= after_start);
    reveal_strlit("\r\n\r\n");
    is_ascii_chars_encode_utf8("\r\n\r\n"@);
    assert(head_end()[0] == 0x0d);
    law_decimal_reads_back(jpeg.len(), after_length);
    assert(after_start.take(decimal(jpeg.len()).len() as int) =~= decimal(jpeg.len()));
    assert(after_start.skip(decimal(jpeg.len()).len() as int) =~= after_length);
    assert(head_end().is_prefix_of(after_length));
    assert(after_length.skip(head_end().len() as int) =~= data);
    assert(data.take(jpeg.len() as int) =~= jpeg);
    assert(data.skip(jpeg.len() as int) =~= line_end() + rest);
    assert(line_end().is_prefix_of(data.skip(jpeg.len() as int)));
    assert(data.skip(jpeg.len() as int).skip(line_end().len() as int) =~= rest);
}

/// What a client reads of a stream of images, up to the first thing that is no part.
pub open spec fn read_parts(bytes: Seq<u8>) -> Seq<Seq<u8>>
    decreases bytes.len(),
{
    match read_part(bytes) {
        Some((jpeg, rest)) => if rest.len() < bytes.len() {
            seq![jpeg] + read_parts(rest)
        } else {
            Seq::empty()
        },
        None => Seq::empty(),
    }
}

/// A client reads back exactly the images of a stream, in order.
pub proof fn law_parts_read_back(jpegs: Seq<Seq<u8>>)
    ensures
        read_parts(parts_bytes(jpegs)) == jpegs,
    decreases jpegs.len(),
{
    reveal_strlit("--");
    is_ascii_chars_encode_utf8("--"@);
    assert(part_start().len() > 0);
    if jpegs.len() == 0 {
        assert(!part_start().is_prefix_of(parts_bytes(jpegs)));
        assert(read_parts(parts_bytes(jpegs)) =~= jpegs);
    } else {
        let rest = parts_bytes(jpegs.skip(1));
        law_part_reads_back(jpegs[0], rest);
        law_parts_read_back(jpegs.skip(1));
        assert(part_bytes(jpegs[0]).len() > 0);
        assert(seq![jpegs[0]] + jpegs.skip(1) =~= jpegs);
    }
}

/// What a client reads of a single image that goes by the length in the head.
pub open spec fn read_single(bytes: Seq<u8>) -> Option<Seq<u8>> {
    if !single_start().is_prefix_of(bytes) {
        None
    } else {
        let after_start = bytes.skip(single_start().len() as int);
        let digits = leading_digits(after_start) as int;
        let len = digits_value(after_start.take(digits)) as int;
        let after_length = after_start.skip(digits);
        if !single_head_end().is_prefix_of(after_length) {
            None
        } else {
            let data = after_length.skip(single_head_end().len() as int);
            if len > data.len() {
                None
            } else {
                Some(data.take(len))
            }
        }
    }
}

/// A client reads a single image back, whatever bytes it holds.
pub proof fn law_single_reads_back(jpeg: Seq<u8>)
    ensures
        read_single(single_bytes(Some(jpeg))) == Some(jpeg),
{
    let bytes = single_bytes(Some(jpeg));
    let after_length = single_head_end() + jpeg;
    let after_start = decimal(jpeg.len()) + after_length;
    assert(bytes =~= single_start() + after_start);
    assert(single_start().is_prefix_of(bytes));
    assert(bytes.skip(single_start().len() as int) =~= after_start);
    reveal_strlit("\r\nCache-Control: no-cache, no-store\r\nConnection: close\r\n\r\n");
    is_ascii_chars_encode_utf8(
        "\r\nCache-Control: no-cache, no-store\r\nConnection: close\r\n\r\n"@,
    );
    assert(single_head_end()[0] == 0x0d);
    law_decimal_reads_back(jpeg.len(), after_length);
    assert(after_start.take(decimal(jpeg.len()).len() as int) =~= decimal(jpeg.len()));
    assert(after_start.skip(decimal(jpeg.len()).len() as int) =~= after_length);
    assert(single_head_end().is_prefix_of(after_length));
    assert(after_length.skip(single_head_end().len() as int) =~= jpeg);
    assert(jpeg.take(jpeg.len() as int) =~= jpeg);
}

/// Which path leads where, and that no other path leads to an image.
pub proof fn law_paths_of_the_routes(path: Seq<char>)
    ensures
        route_of(path) == Route::Multipart(Eye::Left) <==> path == "/left.mjpg"@ || path
            == "/left.mjpeg"@,
        route_of(path) == Route::Multipart(Eye::Right) <==> path == "/right.mjpg"@ || path
            == "/right.mjpeg"@,
        route_of(path) == Route::Single(Eye::Left) <==> path == "/left.jpg"@ || path
            == "/left.jpeg"@,
        route_of(path) == Route::Single(Eye::Right) <==> path == "/right.jpg"@ || path
            == "/right.jpeg"@,
        route_of(path) is Index <==> path == "/"@,
{
    reveal_strlit("/left.mjpg");
    reveal_strlit("/left.mjpeg");
    reveal_strlit("/right.mjpg");
    reveal_strlit("/right.mjpeg");
    reveal_strlit("/left.jpg");
    reveal_strlit("/left.jpeg");
    reveal_strlit("/right.jpg");
    reveal_strlit("/right.jpeg");
    reveal_strlit("/");
    assert("/left.mjpg"@.len() == 10 && "/left.mjpeg"@.len() == 11);
    assert("/right.mjpg"@.len() == 11 && "/right.mjpeg"@.len() == 12);
    assert("/left.jpg"@.len() == 9 && "/left.jpeg"@.len() == 10);
    assert("/right.jpg"@.len() == 10 && "/right.jpeg"@.len() == 11);
    assert("/left.mjpg"@[1] == 'l' && "/left.mjpeg"@[1] == 'l' && "/left.jpeg"@[1] == 'l');
    assert("/right.mjpg"@[1] == 'r' && "/right.jpg"@[1] == 'r' && "/right.jpeg"@[1] == 'r');
    assert("/left.mjpg"@[6] == 'm' && "/left.jpeg"@[6] == 'j');
    assert("/right.mjpg"@[7] == 'm' && "/right.jpeg"@[7] == 'j');
}

/// The path of a request line is the word between its method and its version.
pub proof fn law_path_is_the_second_word(
    method: Seq<char>,
    gap: Seq<char>,
    path: Seq<char>,
    rest: Seq<char>,
)
    requires
        method.len() > 0 && gap.len() > 0 && path.len() > 0,
        forall|i: int| 0 <= i < method.len() ==> !is_space(#[trigger] method[i]),
        forall|i: int| 0 <= i < gap.len() ==> is_space(#[trigger] gap[i]),
        forall|i: int| 0 <= i < path.len() ==> !is_space(#[trigger] path[i]),
        rest.len() == 0 || is_space(rest[0]),
    ensures
        path_of(method + gap + path + rest) == path,
{
    let none = Seq::<char>::empty();
    law_second_word_stands_between_spaces(none, method, gap, path, rest);
    assert(none + method + gap + path + rest =~= method + gap + path + rest);
}

/// A request line of one word, or of none, asks for the root.
pub proof fn law_path_of_a_short_line_is_the_root(
    lead: Seq<char>,
    word: Seq<char>,
    trail: Seq<char>,
)
    requires
        forall|i: int| 0 <= i < lead.len() ==> is_space(#[trigger] lead[i]),
        forall|i: int| 0 <= i < word.len() ==> !is_space(#[trigger] word[i]),
        forall|i: int| 0 <= i < trail.len() ==> is_space(#[trigger] trail[i]),
    ensures
        path_of(lead + word + trail) == "/"@,
{
    law_one_word_has_no_second(lead, word, trail);
}

/// A line is blank exactly if all its characters are white space.
pub proof fn law_blank_lines_are_white(line: Seq<char>)
    ensures
        is_blank(line) <==> forall|i: int| 0 <= i < line.len() ==> is_space(#[trigger] line[i]),
{
}

/// A part of a stream: the boundary, the type and the length of the image, a blank line, the image
/// as it is, and the end of a line.
pub proof fn law_part_holds_the_image(jpeg: Seq<u8>)
    ensures
        part_bytes(jpeg) == encode_utf8("--"@) + encode_utf8("alvr-eye-camera-frame"@)
            + encode_utf8("\r\nContent-Type: image/jpeg\r\nContent-Length: "@) + decimal(jpeg.len())
            + encode_utf8("\r\n\r\n"@) + jpeg + encode_utf8("\r\n"@),
{
    assert(part_bytes(jpeg) =~= encode_utf8("--"@) + encode_utf8("alvr-eye-camera-frame"@)
        + encode_utf8("\r\nContent-Type: image/jpeg\r\nContent-Length: "@) + decimal(jpeg.len())
        + encode_utf8("\r\n\r\n"@) + jpeg + encode_utf8("\r\n"@));
}

/// The response with one image: its type and length, and the image as it is behind a blank line.
pub proof fn law_single_response_holds_the_image(jpeg: Seq<u8>)
    ensures
        single_bytes(Some(jpeg)) == encode_utf8(
            "HTTP/1.1 200 OK\r\nContent-Type: image/jpeg\r\nContent-Length: "@,
        ) + decimal(jpeg.len()) + encode_utf8(
            "\r\nCache-Control: no-cache, no-store\r\nConnection: close\r\n\r\n"@,
        ) + jpeg,
        single_bytes(None) == encode_utf8(
            "HTTP/1.1 503 Service Unavailable\r\nConnection: close\r\n\r\n"@,
        ),
{
}

/// A stream is its parts, one after the other.
pub proof fn law_parts_follow_each_other(jpegs: Seq<Seq<u8>>, last: Seq<u8>)
    ensures
        parts_bytes(Seq::empty()) == Seq::<u8>::empty(),
        parts_bytes(jpegs.push(last)) == parts_bytes(jpegs) + part_bytes(last),
    decreases jpegs.len(),
{
    let longer = jpegs.push(last);
    if jpegs.len() == 0 {
        assert(longer.skip(1) =~= Seq::<Seq<u8>>::empty());
        assert(parts_bytes(longer.skip(1)) == Seq::<u8>::empty());
        assert(longer[0] == last);
        assert(parts_bytes(longer) =~= part_bytes(last));
        assert(parts_bytes(jpegs) + part_bytes(last) =~= part_bytes(last));
    } else {
        law_parts_follow_each_other(jpegs.skip(1), last);
        assert(longer.skip(1) =~= jpegs.skip(1).push(last));
        assert(longer[0] == jpegs[0]);
        assert(parts_bytes(longer) =~= parts_bytes(jpegs) + part_bytes(last));
    }
}

} // verus!
