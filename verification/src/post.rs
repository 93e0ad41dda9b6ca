//! The `Post` value object: a unit of content with self-validating fields.

use vstd::prelude::*;
use vstd::string::StrSliceExecFns;

use crate::error::{BriefsError, BriefsResult};
use crate::{MAX_POST_LEN, MAX_POST_TITLE};

verus! {

/// Mathematical model of a post: what every contract in this crate
/// speaks about.
#[verifier::ext_equal]
pub ghost struct PostView {
    pub id: u32,
    pub title: Seq<char>,
    pub msg: Seq<char>,
    pub date: u64,
    pub edited: bool,
}

/// One post of the stream. The identity (`id`) is assigned by the
/// stream engine at creation and never changes afterwards.
#[derive(Debug)]
pub struct Post {
    pub id: u32,
    pub title: String,
    pub msg: String,
    pub date: u64,
    pub edited: bool,
}

impl View for Post {
    type V = PostView;

    open spec fn view(&self) -> PostView {
        PostView {
            id: self.id,
            title: self.title@,
            msg: self.msg@,
            date: self.date,
            edited: self.edited,
        }
    }
}

impl Clone for Post {
    fn clone(&self) -> (r: Self)
        ensures
            r@ == self@,
    {
        Post {
            id: self.id,
            title: self.title.clone(),
            msg: self.msg.clone(),
            date: self.date,
            edited: self.edited,
        }
    }
}

/// A title is acceptable when it is non-empty and holds at most
/// `MAX_POST_TITLE` characters.
pub open spec fn spec_valid_title(t: Seq<char>) -> bool {
    1 <= t.len() <= MAX_POST_TITLE as int
}

/// A message is acceptable when it is non-empty and holds at most
/// `MAX_POST_LEN` characters.
pub open spec fn spec_valid_msg(m: Seq<char>) -> bool {
    1 <= m.len() <= MAX_POST_LEN as int
}

/// The exact error that title validation reports for an unacceptable title.
pub open spec fn spec_title_error(t: Seq<char>) -> BriefsError {
    if t.len() == 0 {
        BriefsError::EmptyTitle
    } else {
        BriefsError::InvalidTitleLength {
            max_size: MAX_POST_TITLE as usize,
            curr_size: t.len() as usize,
        }
    }
}

/// The exact error that message validation reports for an unacceptable message.
pub open spec fn spec_msg_error(m: Seq<char>) -> BriefsError {
    if m.len() == 0 {
        BriefsError::EmptyPost
    } else {
        BriefsError::InvalidPostLength {
            max_size: MAX_POST_LEN as usize,
            curr_size: m.len() as usize,
        }
    }
}

/// Necessary checks for a post's title.
pub fn verify_title(title: &String) -> (r: BriefsResult<()>)
    ensures
        r is Ok <==> spec_valid_title(title@),
        r matches Err(e) ==> e == spec_title_error(title@),
{
    let n = title.as_str().unicode_len();
    if n == 0 {
        return Err(BriefsError::EmptyTitle);
    }
    if n > MAX_POST_TITLE as usize {
        return Err(BriefsError::InvalidTitleLength {
            max_size: MAX_POST_TITLE as usize,
            curr_size: n,
        });
    }
    Ok(())
}

/// Necessary checks for a post's message.
pub fn verify_msg(msg: &String) -> (r: BriefsResult<()>)
    ensures
        r is Ok <==> spec_valid_msg(msg@),
        r matches Err(e) ==> e == spec_msg_error(msg@),
{
    let n = msg.as_str().unicode_len();
    if n == 0 {
        return Err(BriefsError::EmptyPost);
    }
    if n > MAX_POST_LEN as usize {
        return Err(BriefsError::InvalidPostLength {
            max_size: MAX_POST_LEN as usize,
            curr_size: n,
        });
    }
    Ok(())
}

/// Whether a text can survive the row store: the store hands text back
/// NUL-terminated, so a NUL character inside a title or message would be
/// truncated on the way out. Such texts are refused before anything is
/// written, like dates beyond the store's integer.
pub open spec fn spec_text_storable(s: Seq<char>) -> bool {
    !s.contains('\0')
}

/// Scan a text for a NUL character.
pub fn text_has_nul(s: &str) -> (r: bool)
    ensures
        r == s@.contains('\0'),
{
    let n = s.unicode_len();
    let mut i: usize = 0;
    while i < n
        invariant
            n == s@.len(),
            i <= n,
            forall|j: int| 0 <= j < i ==> s@[j] != '\0',
        decreases n - i,
    {
        if s.get_char(i) == '\0' {
            proof {
                assert(0 <= i < s@.len() && s@[i as int] == '\0');
            }
            return true;
        }
        i = i + 1;
    }
    false
}

#[verifier::external_type_specification]
#[verifier::external_body]
pub struct ExSystemTime(std::time::SystemTime);

/// Relies on std::time::SystemTime::duration_since: the number of whole
/// seconds between the Unix epoch and the given point in time.
#[verifier::external_body]
pub fn time_in_sec(time: std::time::SystemTime) -> (r: BriefsResult<u64>)
    ensures
        r matches Err(e) ==> e matches BriefsError::CustomError { .. },
{
    match time.duration_since(std::time::UNIX_EPOCH) {
        Ok(d) => Ok(d.as_secs()),
        Err(_) => Err(BriefsError::CustomError { msg: "time predates the Unix epoch".to_string() }),
    }
}

pub assume_specification[ std::time::SystemTime::now ]() -> std::time::SystemTime;

/// The lines of a text wrapped to 50 display columns with long words
/// broken; a function of the text alone.
pub uninterp spec fn wrap50_of(s: Seq<char>) -> Seq<Seq<char>>;

/// The display width of a text; a function of its characters alone.
pub uninterp spec fn display_width_of(s: Seq<char>) -> nat;

/// Relies on textwrap::wrap at width 50 with break_words: the wrapped
/// lines depend on the text alone.
#[verifier::external_body]
fn wrap50(s: &str) -> (r: Vec<String>)
    ensures
        r@.map_values(|t: String| t@) == wrap50_of(s@),
{
    textwrap::wrap(s, textwrap::Options::new(50).break_words(true))
        .into_iter()
        .map(|c| c.into_owned())
        .collect()
}

/// Relies on textwrap::core::display_width: the displayed width of a
/// text depends on its characters alone.
#[verifier::external_body]
fn text_display_width(s: &str) -> (r: usize)
    ensures
        r as nat == display_width_of(s@),
{
    textwrap::core::display_width(s)
}

/// A run of `n` spaces.
pub open spec fn spec_spaces(n: int) -> Seq<char> {
    Seq::new(n as nat, |i: int| ' ')
}

/// A run of `n` dashes.
pub open spec fn spec_dashes(n: int) -> Seq<char> {
    Seq::new(n as nat, |i: int| '-')
}

/// A title centered in 50 columns: the slack is split, the extra space
/// going right; a title of 50 or more characters stands unpadded.
pub open spec fn spec_center50(t: Seq<char>) -> Seq<char> {
    if t.len() >= 50 {
        t
    } else {
        spec_spaces((50 - t.len()) / 2) + t + spec_spaces(
            (50 - t.len()) - (50 - t.len()) / 2,
        )
    }
}

/// One framed message line: the frame alternates between even and odd
/// lines, and the line is padded to 50 display columns.
pub open spec fn spec_render_line(line: Seq<char>, even: bool) -> Seq<char> {
    let w = display_width_of(line);
    let pad = if w <= 50 {
        50 - w
    } else {
        0
    };
    if even {
        "\\ "@ + line + spec_spaces(pad as int) + " /\n"@
    } else {
        "/ "@ + line + spec_spaces(pad as int) + " \\\n"@
    }
}

/// The first `i` framed message lines, in order.
pub open spec fn spec_render_lines(lines: Seq<Seq<char>>, i: int) -> Seq<char>
    decreases i,
{
    if i <= 0 || i > lines.len() {
        Seq::empty()
    } else {
        spec_render_lines(lines, i - 1) + spec_render_line(lines[i - 1], (i - 1) % 2 == 0)
    }
}

/// The framed card a post renders to: a dashed rule, the centered title
/// over a blank line, the wrapped message, and a closing rule.
pub open spec fn spec_render(p: PostView) -> Seq<char> {
    let lines = wrap50_of(p.msg + "\n"@);
    spec_dashes(54) + "\n"@ + "\\ "@ + spec_center50(p.title) + " /\n"@ + "/ "@ + spec_spaces(50)
        + " \\\n"@ + spec_render_lines(lines, lines.len() as int) + spec_dashes(54)
}

/// A run of `n` spaces, built a character at a time.
fn make_spaces(n: usize) -> (s: String)
    ensures
        s@ == spec_spaces(n as int),
{
    proof {
        reveal_strlit(" ");
    }
    let mut s = String::new();
    let mut i: usize = 0;
    while i < n
        invariant
            i <= n,
            s@ == spec_spaces(i as int),
        decreases n - i,
    {
        s.append(" ");
        proof {
            reveal_strlit(" ");
            assert(s@ =~= spec_spaces(i as int + 1));
        }
        i = i + 1;
    }
    s
}

/// A run of `n` dashes, built a character at a time.
fn make_dashes(n: usize) -> (s: String)
    ensures
        s@ == spec_dashes(n as int),
{
    proof {
        reveal_strlit("-");
    }
    let mut s = String::new();
    let mut i: usize = 0;
    while i < n
        invariant
            i <= n,
            s@ == spec_dashes(i as int),
        decreases n - i,
    {
        s.append("-");
        proof {
            reveal_strlit("-");
            assert(s@ =~= spec_dashes(i as int + 1));
        }
        i = i + 1;
    }
    s
}

/// Center a title in 50 columns, as `spec_center50` lays it out.
fn center50(t: &String) -> (r: String)
    ensures
        r@ == spec_center50(t@),
{
    let n = t.as_str().unicode_len();
    if n >= 50 {
        return t.clone();
    }
    let left = (50 - n) / 2;
    let right = (50 - n) - left;
    let mut s = make_spaces(left);
    s.append(t.as_str());
    let rp = make_spaces(right);
    s.append(rp.as_str());
    s
}

impl Post {
    /// Create a new post by providing the `title` and the body of the
    /// message in `msg`. The creation time is read from the system clock;
    /// nothing is promised of it beyond fitting the row store's integer.
    pub fn new(id: u32, title: String, msg: String) -> (r: BriefsResult<Self>)
        ensures
            r matches Ok(p) ==> {
                &&& spec_valid_title(title@)
                &&& spec_valid_msg(msg@)
                &&& spec_text_storable(title@)
                &&& spec_text_storable(msg@)
                &&& p.id == id
                &&& p.title@ == title@
                &&& p.msg@ == msg@
                &&& !p.edited
                &&& p.date <= i64::MAX
            },
            !spec_valid_title(title@) ==> r == BriefsResult::<Post>::Err(spec_title_error(title@)),
            spec_valid_title(title@) && !spec_valid_msg(msg@) ==> r == BriefsResult::<Post>::Err(
                spec_msg_error(msg@),
            ),
            spec_valid_title(title@) && spec_valid_msg(msg@) ==> (r matches Err(e) ==> e matches
                BriefsError::CustomError { .. }),
    {
        match verify_title(&title) {
            Ok(()) => (),
            Err(e) => {
                return Err(e);
            },
        }
        match verify_msg(&msg) {
            Ok(()) => (),
            Err(e) => {
                return Err(e);
            },
        }
        if text_has_nul(title.as_str()) || text_has_nul(msg.as_str()) {
            return Err(
                BriefsError::custom_error("text contains a NUL the row store cannot keep".to_string()),
            );
        }
        let date = match time_in_sec(std::time::SystemTime::now()) {
            Ok(d) => d,
            Err(e) => {
                return Err(e);
            },
        };
        if date > i64::MAX as u64 {
            return Err(BriefsError::custom_error("timestamp exceeds the row store's integer".to_string()));
        }
        Ok(Post { id, title, msg, date, edited: false })
    }

    /// Update the message of an existing post.
    pub fn update_msg(&mut self, new_msg: String) -> (r: BriefsResult<()>)
        ensures
            r is Ok <==> spec_valid_msg(new_msg@) && spec_text_storable(new_msg@),
            !spec_valid_msg(new_msg@) ==> (r matches Err(e) && e == spec_msg_error(new_msg@)),
            spec_valid_msg(new_msg@) && !spec_text_storable(new_msg@) ==> (r matches Err(e)
                && e matches BriefsError::CustomError { .. }),
            r is Err ==> final(self)@ == old(self)@,
            r is Ok ==> final(self)@ == (PostView {
                msg: new_msg@,
                edited: true,
                ..old(self)@
            }),
    {
        match verify_msg(&new_msg) {
            Ok(()) => (),
            Err(e) => {
                return Err(e);
            },
        }
        if text_has_nul(new_msg.as_str()) {
            return Err(
                BriefsError::custom_error("text contains a NUL the row store cannot keep".to_string()),
            );
        }
        self.msg = new_msg;
        self.edited = true;
        Ok(())
    }

    /// Update the title of an existing post.
    pub fn update_title(&mut self, new_title: String) -> (r: BriefsResult<()>)
        ensures
            r is Ok <==> spec_valid_title(new_title@) && spec_text_storable(new_title@),
            !spec_valid_title(new_title@) ==> (r matches Err(e) && e == spec_title_error(
                new_title@,
            )),
            spec_valid_title(new_title@) && !spec_text_storable(new_title@) ==> (r matches Err(e)
                && e matches BriefsError::CustomError { .. }),
            r is Err ==> final(self)@ == old(self)@,
            r is Ok ==> final(self)@ == (PostView {
                title: new_title@,
                edited: true,
                ..old(self)@
            }),
    {
        match verify_title(&new_title) {
            Ok(()) => (),
            Err(e) => {
                return Err(e);
            },
        }
        if text_has_nul(new_title.as_str()) {
            return Err(
                BriefsError::custom_error("text contains a NUL the row store cannot keep".to_string()),
            );
        }
        self.title = new_title;
        self.edited = true;
        Ok(())
    }

    pub fn id(&self) -> (r: BriefsResult<u32>)
        ensures
            r == BriefsResult::<u32>::Ok(self.id),
    {
        Ok(self.id)
    }

    /// Render the post as a framed card of 54 columns: a dashed rule,
    /// the centered title, and the message wrapped to 50 columns with
    /// alternating frame characters.
    pub fn render(&self) -> (r: String)
        ensures
            r@ == spec_render(self@),
    {
        let ghost header = spec_dashes(54) + "\n"@ + "\\ "@ + spec_center50(self@.title) + " /\n"@
            + "/ "@ + spec_spaces(50) + " \\\n"@;
        let mut out = make_dashes(54);
        out.append("\n");
        out.append("\\ ");
        let centered = center50(&self.title);
        out.append(centered.as_str());
        out.append(" /\n");
        out.append("/ ");
        let sp50 = make_spaces(50);
        out.append(sp50.as_str());
        out.append(" \\\n");
        assert(out@ == header);
        let mut m = self.msg.clone();
        m.append("\n");
        let lines = wrap50(m.as_str());
        let ghost lines_spec = wrap50_of(self@.msg + "\n"@);
        assert(lines@.map_values(|t: String| t@) == lines_spec);
        let mut i: usize = 0;
        while i < lines.len()
            invariant
                lines@.map_values(|t: String| t@) == lines_spec,
                i <= lines@.len(),
                out@ == header + spec_render_lines(lines_spec, i as int),
            decreases lines@.len() - i,
        {
            let line = &lines[i];
            assert(line@ == lines_spec[i as int]);
            let w = text_display_width(line.as_str());
            let pad = if w <= 50 {
                50 - w
            } else {
                0
            };
            if i % 2 == 0 {
                out.append("\\ ");
            } else {
                out.append("/ ");
            }
            out.append(line.as_str());
            let sp = make_spaces(pad);
            out.append(sp.as_str());
            if i % 2 == 0 {
                out.append(" /\n");
            } else {
                out.append(" \\\n");
            }
            proof {
                assert(out@ =~= header + spec_render_lines(lines_spec, i as int + 1));
            }
            i = i + 1;
        }
        let tail = make_dashes(54);
        out.append(tail.as_str());
        proof {
            assert(lines_spec.len() == lines@.len());
            assert(out@ =~= spec_render(self@));
        }
        out
    }

    /// Rebuild a post from the plain values of one row of the store.
    pub fn from_fields(id: u32, title: String, msg: String, date: u64, edited: bool) -> (r: Self)
        ensures
            r@ == (PostView { id, title: title@, msg: msg@, date, edited }),
    {
        Post { id, title, msg, date, edited }
    }
}

} // verus!
