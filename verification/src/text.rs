//! The fixed texts of the desktop: commands and messages.
use vstd::prelude::*;

verus! {

/// The command `r.neofetch`.
pub open spec fn t_neofetch_cmd() -> Seq<u8> {
    seq![0x72u8, 0x2e, 0x6e, 0x65, 0x6f, 0x66, 0x65, 0x74, 0x63, 0x68]
}

/// The command `r.neofetch`.
pub fn neofetch_cmd() -> (res: [u8; 10])
    ensures
        res@ == t_neofetch_cmd(),
{
    let res: [u8; 10] = [0x72, 0x2e, 0x6e, 0x65, 0x6f, 0x66, 0x65, 0x74, 0x63, 0x68];
    assert(res@ =~= t_neofetch_cmd());
    res
}

/// The command `r.help`.
pub open spec fn t_help_cmd() -> Seq<u8> {
    seq![0x72u8, 0x2e, 0x68, 0x65, 0x6c, 0x70]
}

/// The command `r.help`.
pub fn help_cmd() -> (res: [u8; 6])
    ensures
        res@ == t_help_cmd(),
{
    let res: [u8; 6] = [0x72, 0x2e, 0x68, 0x65, 0x6c, 0x70];
    assert(res@ =~= t_help_cmd());
    res
}

/// The command `r.play.ferris_dino`.
pub open spec fn t_dino_cmd() -> Seq<u8> {
    seq![0x72u8, 0x2e, 0x70, 0x6c, 0x61, 0x79, 0x2e, 0x66, 0x65, 0x72, 0x72, 0x69, 0x73, 0x5f, 0x64, 0x69, 0x6e, 0x6f]
}

/// The command `r.play.ferris_dino`.
pub fn dino_cmd() -> (res: [u8; 18])
    ensures
        res@ == t_dino_cmd(),
{
    let res: [u8; 18] = [0x72, 0x2e, 0x70, 0x6c, 0x61, 0x79, 0x2e, 0x66, 0x65, 0x72, 0x72, 0x69, 0x73, 0x5f, 0x64, 0x69, 0x6e, 0x6f];
    assert(res@ =~= t_dino_cmd());
    res
}

/// The command `r.play.ferris_maker`.
pub open spec fn t_maker_cmd() -> Seq<u8> {
    seq![0x72u8, 0x2e, 0x70, 0x6c, 0x61, 0x79, 0x2e, 0x66, 0x65, 0x72, 0x72, 0x69, 0x73, 0x5f, 0x6d, 0x61, 0x6b, 0x65, 0x72]
}

/// The command `r.play.ferris_maker`.
pub fn maker_cmd() -> (res: [u8; 19])
    ensures
        res@ == t_maker_cmd(),
{
    let res: [u8; 19] = [0x72, 0x2e, 0x70, 0x6c, 0x61, 0x79, 0x2e, 0x66, 0x65, 0x72, 0x72, 0x69, 0x73, 0x5f, 0x6d, 0x61, 0x6b, 0x65, 0x72];
    assert(res@ =~= t_maker_cmd());
    res
}

/// The command `r.play.ferrisdungeon`.
pub open spec fn t_dungeon_cmd() -> Seq<u8> {
    seq![0x72u8, 0x2e, 0x70, 0x6c, 0x61, 0x79, 0x2e, 0x66, 0x65, 0x72, 0x72, 0x69, 0x73, 0x64, 0x75, 0x6e, 0x67, 0x65, 0x6f, 0x6e]
}

/// The command `r.play.ferrisdungeon`.
pub fn dungeon_cmd() -> (res: [u8; 20])
    ensures
        res@ == t_dungeon_cmd(),
{
    let res: [u8; 20] = [0x72, 0x2e, 0x70, 0x6c, 0x61, 0x79, 0x2e, 0x66, 0x65, 0x72, 0x72, 0x69, 0x73, 0x64, 0x75, 0x6e, 0x67, 0x65, 0x6f, 0x6e];
    assert(res@ =~= t_dungeon_cmd());
    res
}

/// The command `r.new`.
pub open spec fn t_new_cmd() -> Seq<u8> {
    seq![0x72u8, 0x2e, 0x6e, 0x65, 0x77]
}

/// The command `r.new`.
pub fn new_cmd() -> (res: [u8; 5])
    ensures
        res@ == t_new_cmd(),
{
    let res: [u8; 5] = [0x72, 0x2e, 0x6e, 0x65, 0x77];
    assert(res@ =~= t_new_cmd());
    res
}

/// The command `r.chest`.
pub open spec fn t_chest_cmd() -> Seq<u8> {
    seq![0x72u8, 0x2e, 0x63, 0x68, 0x65, 0x73, 0x74]
}

/// The command `r.chest`.
pub fn chest_cmd() -> (res: [u8; 7])
    ensures
        res@ == t_chest_cmd(),
{
    let res: [u8; 7] = [0x72, 0x2e, 0x63, 0x68, 0x65, 0x73, 0x74];
    assert(res@ =~= t_chest_cmd());
    res
}

/// The command `r.sd`.
pub open spec fn t_sd_cmd() -> Seq<u8> {
    seq![0x72u8, 0x2e, 0x73, 0x64]
}

/// The command `r.sd`.
pub fn sd_cmd() -> (res: [u8; 4])
    ensures
        res@ == t_sd_cmd(),
{
    let res: [u8; 4] = [0x72, 0x2e, 0x73, 0x64];
    assert(res@ =~= t_sd_cmd());
    res
}

/// The command `r.wash`.
pub open spec fn t_wash_cmd() -> Seq<u8> {
    seq![0x72u8, 0x2e, 0x77, 0x61, 0x73, 0x68]
}

/// The command `r.wash`.
pub fn wash_cmd() -> (res: [u8; 6])
    ensures
        res@ == t_wash_cmd(),
{
    let res: [u8; 6] = [0x72, 0x2e, 0x77, 0x61, 0x73, 0x68];
    assert(res@ =~= t_wash_cmd());
    res
}

/// The command `r.ide`.
pub open spec fn t_ide_cmd() -> Seq<u8> {
    seq![0x72u8, 0x2e, 0x69, 0x64, 0x65]
}

/// The command `r.ide`.
pub fn ide_cmd() -> (res: [u8; 5])
    ensures
        res@ == t_ide_cmd(),
{
    let res: [u8; 5] = [0x72, 0x2e, 0x69, 0x64, 0x65];
    assert(res@ =~= t_ide_cmd());
    res
}

/// The command `r.carapace`.
pub open spec fn t_carapace_cmd() -> Seq<u8> {
    seq![0x72u8, 0x2e, 0x63, 0x61, 0x72, 0x61, 0x70, 0x61, 0x63, 0x65]
}

/// The command `r.carapace`.
pub fn carapace_cmd() -> (res: [u8; 10])
    ensures
        res@ == t_carapace_cmd(),
{
    let res: [u8; 10] = [0x72, 0x2e, 0x63, 0x61, 0x72, 0x61, 0x70, 0x61, 0x63, 0x65];
    assert(res@ =~= t_carapace_cmd());
    res
}

/// The command `r.close`.
pub open spec fn t_close_cmd() -> Seq<u8> {
    seq![0x72u8, 0x2e, 0x63, 0x6c, 0x6f, 0x73, 0x65]
}

/// The command `r.close`.
pub fn close_cmd() -> (res: [u8; 7])
    ensures
        res@ == t_close_cmd(),
{
    let res: [u8; 7] = [0x72, 0x2e, 0x63, 0x6c, 0x6f, 0x73, 0x65];
    assert(res@ =~= t_close_cmd());
    res
}

/// The command `r.claw`.
pub open spec fn t_claw_cmd() -> Seq<u8> {
    seq![0x72u8, 0x2e, 0x63, 0x6c, 0x61, 0x77]
}

/// The command `r.claw`.
pub fn claw_cmd() -> (res: [u8; 6])
    ensures
        res@ == t_claw_cmd(),
{
    let res: [u8; 6] = [0x72, 0x2e, 0x63, 0x6c, 0x61, 0x77];
    assert(res@ =~= t_claw_cmd());
    res
}

/// The command `r.sf`.
pub open spec fn t_sf_cmd() -> Seq<u8> {
    seq![0x72u8, 0x2e, 0x73, 0x66]
}

/// The command `r.sf`.
pub fn sf_cmd() -> (res: [u8; 4])
    ensures
        res@ == t_sf_cmd(),
{
    let res: [u8; 4] = [0x72, 0x2e, 0x73, 0x66];
    assert(res@ =~= t_sf_cmd());
    res
}

/// The start of `r.ad` commands.
pub open spec fn t_ad_prefix() -> Seq<u8> {
    seq![0x72u8, 0x2e, 0x61, 0x64]
}

/// The start of `r.ad` commands.
pub fn ad_prefix() -> (res: [u8; 4])
    ensures
        res@ == t_ad_prefix(),
{
    let res: [u8; 4] = [0x72, 0x2e, 0x61, 0x64];
    assert(res@ =~= t_ad_prefix());
    res
}

/// The start of `r.ex` commands.
pub open spec fn t_ex_prefix() -> Seq<u8> {
    seq![0x72u8, 0x2e, 0x65, 0x78, 0x20]
}

/// The start of `r.ex` commands.
pub fn ex_prefix() -> (res: [u8; 5])
    ensures
        res@ == t_ex_prefix(),
{
    let res: [u8; 5] = [0x72, 0x2e, 0x65, 0x78, 0x20];
    assert(res@ =~= t_ex_prefix());
    res
}

/// `r.play/ferris_maker`: typed, it gets no prompt back.
pub open spec fn t_maker_slash() -> Seq<u8> {
    seq![0x72u8, 0x2e, 0x70, 0x6c, 0x61, 0x79, 0x2f, 0x66, 0x65, 0x72, 0x72, 0x69, 0x73, 0x5f, 0x6d, 0x61, 0x6b, 0x65, 0x72]
}

/// `r.play/ferris_maker`: typed, it gets no prompt back.
pub fn maker_slash() -> (res: [u8; 19])
    ensures
        res@ == t_maker_slash(),
{
    let res: [u8; 19] = [0x72, 0x2e, 0x70, 0x6c, 0x61, 0x79, 0x2f, 0x66, 0x65, 0x72, 0x72, 0x69, 0x73, 0x5f, 0x6d, 0x61, 0x6b, 0x65, 0x72];
    assert(res@ =~= t_maker_slash());
    res
}

/// `r.play/ferris_dino`: typed, it gets no prompt back.
pub open spec fn t_dino_slash() -> Seq<u8> {
    seq![0x72u8, 0x2e, 0x70, 0x6c, 0x61, 0x79, 0x2f, 0x66, 0x65, 0x72, 0x72, 0x69, 0x73, 0x5f, 0x64, 0x69, 0x6e, 0x6f]
}

/// `r.play/ferris_dino`: typed, it gets no prompt back.
pub fn dino_slash() -> (res: [u8; 18])
    ensures
        res@ == t_dino_slash(),
{
    let res: [u8; 18] = [0x72, 0x2e, 0x70, 0x6c, 0x61, 0x79, 0x2f, 0x66, 0x65, 0x72, 0x72, 0x69, 0x73, 0x5f, 0x64, 0x69, 0x6e, 0x6f];
    assert(res@ =~= t_dino_slash());
    res
}

/// The folder part of `r.ad carapace.N`.
pub open spec fn t_carapace_dot() -> Seq<u8> {
    seq![0x63u8, 0x61, 0x72, 0x61, 0x70, 0x61, 0x63, 0x65, 0x2e]
}

/// The folder part of `r.ad carapace.N`.
pub fn carapace_dot() -> (res: [u8; 9])
    ensures
        res@ == t_carapace_dot(),
{
    let res: [u8; 9] = [0x63, 0x61, 0x72, 0x61, 0x70, 0x61, 0x63, 0x65, 0x2e];
    assert(res@ =~= t_carapace_dot());
    res
}

/// The folder part of `r.ad carapace`.
pub open spec fn t_carapace_word() -> Seq<u8> {
    seq![0x63u8, 0x61, 0x72, 0x61, 0x70, 0x61, 0x63, 0x65]
}

/// The folder part of `r.ad carapace`.
pub fn carapace_word() -> (res: [u8; 8])
    ensures
        res@ == t_carapace_word(),
{
    let res: [u8; 8] = [0x63, 0x61, 0x72, 0x61, 0x70, 0x61, 0x63, 0x65];
    assert(res@ =~= t_carapace_word());
    res
}

/// The folder part of `r.ad ..`.
pub open spec fn t_dot_dot() -> Seq<u8> {
    seq![0x2eu8, 0x2e]
}

/// The folder part of `r.ad ..`.
pub fn dot_dot() -> (res: [u8; 2])
    ensures
        res@ == t_dot_dot(),
{
    let res: [u8; 2] = [0x2e, 0x2e];
    assert(res@ =~= t_dot_dot());
    res
}

/// The crab that `r.neofetch` draws.
pub open spec fn t_neofetch_art() -> Seq<u8> {
    seq![0x20u8, 0x20, 0x20, 0x20, 0x20, 0x20, 0x20, 0x5f, 0x7e, 0x5e, 0x7e, 0x5e, 0x7e, 0x5f, 0x0a, 0x20, 0x20, 0x20, 0x5c, 0x29, 0x20, 0x2f, 0x20, 0x20, 0x6f, 0x20, 0x6f, 0x20, 0x20, 0x5c, 0x20, 0x28, 0x2f, 0x0a, 0x20, 0x20, 0x20, 0x20, 0x20, 0x27, 0x5f, 0x20, 0x20, 0x20, 0x2d, 0x20, 0x20, 0x20, 0x5f, 0x27, 0x0a, 0x20, 0x20, 0x20, 0x20, 0x20, 0x2f, 0x20, 0x27, 0x2d, 0x2d, 0x2d, 0x2d, 0x2d, 0x27, 0x20, 0x5c, 0x0a]
}

/// The crab that `r.neofetch` draws.
pub fn neofetch_art() -> (res: [u8; 68])
    ensures
        res@ == t_neofetch_art(),
{
    let res: [u8; 68] = [0x20, 0x20, 0x20, 0x20, 0x20, 0x20, 0x20, 0x5f, 0x7e, 0x5e, 0x7e, 0x5e, 0x7e, 0x5f, 0x0a, 0x20, 0x20, 0x20, 0x5c, 0x29, 0x20, 0x2f, 0x20, 0x20, 0x6f, 0x20, 0x6f, 0x20, 0x20, 0x5c, 0x20, 0x28, 0x2f, 0x0a, 0x20, 0x20, 0x20, 0x20, 0x20, 0x27, 0x5f, 0x20, 0x20, 0x20, 0x2d, 0x20, 0x20, 0x20, 0x5f, 0x27, 0x0a, 0x20, 0x20, 0x20, 0x20, 0x20, 0x2f, 0x20, 0x27, 0x2d, 0x2d, 0x2d, 0x2d, 0x2d, 0x27, 0x20, 0x5c, 0x0a];
    assert(res@ =~= t_neofetch_art());
    res
}

/// The system line of `r.neofetch`.
pub open spec fn t_neofetch_os() -> Seq<u8> {
    seq![0x4fu8, 0x53, 0x3a, 0x20, 0x66, 0x65, 0x72, 0x72, 0x69, 0x73, 0x4f, 0x53, 0x20, 0x50, 0x52, 0x49, 0x4d, 0x49, 0x54, 0x49, 0x56, 0x45, 0x20, 0x31, 0x0a]
}

/// The system line of `r.neofetch`.
pub fn neofetch_os() -> (res: [u8; 25])
    ensures
        res@ == t_neofetch_os(),
{
    let res: [u8; 25] = [0x4f, 0x53, 0x3a, 0x20, 0x66, 0x65, 0x72, 0x72, 0x69, 0x73, 0x4f, 0x53, 0x20, 0x50, 0x52, 0x49, 0x4d, 0x49, 0x54, 0x49, 0x56, 0x45, 0x20, 0x31, 0x0a];
    assert(res@ =~= t_neofetch_os());
    res
}

/// The text of `r.help`.
pub open spec fn t_help_text() -> Seq<u8> {
    seq![0x2du8, 0x20, 0x72, 0x2e, 0x6e, 0x65, 0x6f, 0x66, 0x65, 0x74, 0x63, 0x68, 0x0a, 0x2d, 0x20, 0x72, 0x2e, 0x70, 0x6c, 0x61, 0x79, 0x2e, 0x66, 0x65, 0x72, 0x72, 0x69, 0x73, 0x5f, 0x64, 0x69, 0x6e, 0x6f, 0x0a, 0x2d, 0x20, 0x72, 0x2e, 0x70, 0x6c, 0x61, 0x79, 0x2e, 0x66, 0x65, 0x72, 0x72, 0x69, 0x73, 0x5f, 0x6d, 0x61, 0x6b, 0x65, 0x72, 0x0a, 0x2d, 0x20, 0x72, 0x2e, 0x70, 0x6c, 0x61, 0x79, 0x2e, 0x66, 0x65, 0x72, 0x72, 0x69, 0x73, 0x64, 0x75, 0x6e, 0x67, 0x65, 0x6f, 0x6e, 0x0a, 0x2d, 0x20, 0x72, 0x2e, 0x6e, 0x65, 0x77, 0x0a, 0x2d, 0x20, 0x72, 0x2e, 0x63, 0x6c, 0x6f, 0x73, 0x65, 0x0a, 0x2d, 0x20, 0x72, 0x2e, 0x73, 0x64, 0x0a, 0x2d, 0x20, 0x72, 0x2e, 0x77, 0x61, 0x73, 0x68, 0x0a, 0x2d, 0x20, 0x72, 0x2e, 0x69, 0x64, 0x65, 0x0a, 0x2d, 0x20, 0x72, 0x2e, 0x63, 0x6c, 0x61, 0x77, 0x0a, 0x2d, 0x20, 0x72, 0x2e, 0x63, 0x61, 0x72, 0x61, 0x70, 0x61, 0x63, 0x65, 0x0a, 0x2d, 0x20, 0x72, 0x2e, 0x61, 0x64, 0x0a, 0x2d, 0x20, 0x72, 0x2e, 0x73, 0x66, 0x0a, 0x2d, 0x20, 0x72, 0x2e, 0x65, 0x78, 0x0a, 0x2d, 0x20, 0x72, 0x2e, 0x64, 0x65, 0x73, 0x6b, 0x0a, 0x2d]
}

/// The text of `r.help`.
pub fn help_text() -> (res: [u8; 174])
    ensures
        res@ == t_help_text(),
{
    let res: [u8; 174] = [0x2d, 0x20, 0x72, 0x2e, 0x6e, 0x65, 0x6f, 0x66, 0x65, 0x74, 0x63, 0x68, 0x0a, 0x2d, 0x20, 0x72, 0x2e, 0x70, 0x6c, 0x61, 0x79, 0x2e, 0x66, 0x65, 0x72, 0x72, 0x69, 0x73, 0x5f, 0x64, 0x69, 0x6e, 0x6f, 0x0a, 0x2d, 0x20, 0x72, 0x2e, 0x70, 0x6c, 0x61, 0x79, 0x2e, 0x66, 0x65, 0x72, 0x72, 0x69, 0x73, 0x5f, 0x6d, 0x61, 0x6b, 0x65, 0x72, 0x0a, 0x2d, 0x20, 0x72, 0x2e, 0x70, 0x6c, 0x61, 0x79, 0x2e, 0x66, 0x65, 0x72, 0x72, 0x69, 0x73, 0x64, 0x75, 0x6e, 0x67, 0x65, 0x6f, 0x6e, 0x0a, 0x2d, 0x20, 0x72, 0x2e, 0x6e, 0x65, 0x77, 0x0a, 0x2d, 0x20, 0x72, 0x2e, 0x63, 0x6c, 0x6f, 0x73, 0x65, 0x0a, 0x2d, 0x20, 0x72, 0x2e, 0x73, 0x64, 0x0a, 0x2d, 0x20, 0x72, 0x2e, 0x77, 0x61, 0x73, 0x68, 0x0a, 0x2d, 0x20, 0x72, 0x2e, 0x69, 0x64, 0x65, 0x0a, 0x2d, 0x20, 0x72, 0x2e, 0x63, 0x6c, 0x61, 0x77, 0x0a, 0x2d, 0x20, 0x72, 0x2e, 0x63, 0x61, 0x72, 0x61, 0x70, 0x61, 0x63, 0x65, 0x0a, 0x2d, 0x20, 0x72, 0x2e, 0x61, 0x64, 0x0a, 0x2d, 0x20, 0x72, 0x2e, 0x73, 0x66, 0x0a, 0x2d, 0x20, 0x72, 0x2e, 0x65, 0x78, 0x0a, 0x2d, 0x20, 0x72, 0x2e, 0x64, 0x65, 0x73, 0x6b, 0x0a, 0x2d];
    assert(res@ =~= t_help_text());
    res
}

/// Refusal to close the main window.
pub open spec fn t_cannot_close() -> Seq<u8> {
    seq![0x43u8, 0x61, 0x6e, 0x6e, 0x6f, 0x74, 0x20, 0x63, 0x6c, 0x6f, 0x73, 0x65, 0x20, 0x74, 0x68, 0x65, 0x20, 0x6d, 0x61, 0x69, 0x6e, 0x20, 0x77, 0x69, 0x6e, 0x64, 0x6f, 0x77, 0x2e, 0x0a]
}

/// Refusal to close the main window.
pub fn cannot_close() -> (res: [u8; 30])
    ensures
        res@ == t_cannot_close(),
{
    let res: [u8; 30] = [0x43, 0x61, 0x6e, 0x6e, 0x6f, 0x74, 0x20, 0x63, 0x6c, 0x6f, 0x73, 0x65, 0x20, 0x74, 0x68, 0x65, 0x20, 0x6d, 0x61, 0x69, 0x6e, 0x20, 0x77, 0x69, 0x6e, 0x64, 0x6f, 0x77, 0x2e, 0x0a];
    assert(res@ =~= t_cannot_close());
    res
}

/// A folder digit out of range.
pub open spec fn t_invalid_folder() -> Seq<u8> {
    seq![0x49u8, 0x6e, 0x76, 0x61, 0x6c, 0x69, 0x64, 0x20, 0x66, 0x6f, 0x6c, 0x64, 0x65, 0x72, 0x2e, 0x0a]
}

/// A folder digit out of range.
pub fn invalid_folder() -> (res: [u8; 16])
    ensures
        res@ == t_invalid_folder(),
{
    let res: [u8; 16] = [0x49, 0x6e, 0x76, 0x61, 0x6c, 0x69, 0x64, 0x20, 0x66, 0x6f, 0x6c, 0x64, 0x65, 0x72, 0x2e, 0x0a];
    assert(res@ =~= t_invalid_folder());
    res
}

/// An `r.ad` that names no folder.
pub open spec fn t_unknown_dir() -> Seq<u8> {
    seq![0x55u8, 0x6e, 0x6b, 0x6e, 0x6f, 0x77, 0x6e, 0x20, 0x64, 0x69, 0x72, 0x65, 0x63, 0x74, 0x6f, 0x72, 0x79, 0x2e, 0x0a]
}

/// An `r.ad` that names no folder.
pub fn unknown_dir() -> (res: [u8; 19])
    ensures
        res@ == t_unknown_dir(),
{
    let res: [u8; 19] = [0x55, 0x6e, 0x6b, 0x6e, 0x6f, 0x77, 0x6e, 0x20, 0x64, 0x69, 0x72, 0x65, 0x63, 0x74, 0x6f, 0x72, 0x79, 0x2e, 0x0a];
    assert(res@ =~= t_unknown_dir());
    res
}

/// A file command outside the folders.
pub open spec fn t_not_in_folder() -> Seq<u8> {
    seq![0x4eu8, 0x6f, 0x74, 0x20, 0x69, 0x6e, 0x20, 0x61, 0x20, 0x63, 0x61, 0x72, 0x61, 0x70, 0x61, 0x63, 0x65, 0x20, 0x66, 0x6f, 0x6c, 0x64, 0x65, 0x72, 0x2e, 0x0a]
}

/// A file command outside the folders.
pub fn not_in_folder() -> (res: [u8; 26])
    ensures
        res@ == t_not_in_folder(),
{
    let res: [u8; 26] = [0x4e, 0x6f, 0x74, 0x20, 0x69, 0x6e, 0x20, 0x61, 0x20, 0x63, 0x61, 0x72, 0x61, 0x70, 0x61, 0x63, 0x65, 0x20, 0x66, 0x6f, 0x6c, 0x64, 0x65, 0x72, 0x2e, 0x0a];
    assert(res@ =~= t_not_in_folder());
    res
}

/// `r.ex` of a missing file.
pub open spec fn t_not_found() -> Seq<u8> {
    seq![0x46u8, 0x69, 0x6c, 0x65, 0x20, 0x6e, 0x6f, 0x74, 0x20, 0x66, 0x6f, 0x75, 0x6e, 0x64, 0x2e, 0x0a]
}

/// `r.ex` of a missing file.
pub fn not_found() -> (res: [u8; 16])
    ensures
        res@ == t_not_found(),
{
    let res: [u8; 16] = [0x46, 0x69, 0x6c, 0x65, 0x20, 0x6e, 0x6f, 0x74, 0x20, 0x66, 0x6f, 0x75, 0x6e, 0x64, 0x2e, 0x0a];
    assert(res@ =~= t_not_found());
    res
}

/// `r.sf` of an empty folder.
pub open spec fn t_folder_empty() -> Seq<u8> {
    seq![0x46u8, 0x6f, 0x6c, 0x64, 0x65, 0x72, 0x20, 0x69, 0x73, 0x20, 0x65, 0x6d, 0x70, 0x74, 0x79, 0x2e, 0x0a]
}

/// `r.sf` of an empty folder.
pub fn folder_empty() -> (res: [u8; 17])
    ensures
        res@ == t_folder_empty(),
{
    let res: [u8; 17] = [0x46, 0x6f, 0x6c, 0x64, 0x65, 0x72, 0x20, 0x69, 0x73, 0x20, 0x65, 0x6d, 0x70, 0x74, 0x79, 0x2e, 0x0a];
    assert(res@ =~= t_folder_empty());
    res
}

/// A line that is no command.
pub open spec fn t_unknown_cmd() -> Seq<u8> {
    seq![0x55u8, 0x6e, 0x6b, 0x6e, 0x6f, 0x77, 0x6e, 0x20, 0x63, 0x6f, 0x6d, 0x6d, 0x61, 0x6e, 0x64, 0x2e, 0x0a]
}

/// A line that is no command.
pub fn unknown_cmd() -> (res: [u8; 17])
    ensures
        res@ == t_unknown_cmd(),
{
    let res: [u8; 17] = [0x55, 0x6e, 0x6b, 0x6e, 0x6f, 0x77, 0x6e, 0x20, 0x63, 0x6f, 0x6d, 0x6d, 0x61, 0x6e, 0x64, 0x2e, 0x0a];
    assert(res@ =~= t_unknown_cmd());
    res
}

/// First line of a new window.
pub open spec fn t_welcome() -> Seq<u8> {
    seq![0x57u8, 0x65, 0x6c, 0x63, 0x6f, 0x6d, 0x65, 0x20, 0x74, 0x6f, 0x20, 0x66, 0x65, 0x72, 0x72, 0x69, 0x73, 0x4f, 0x53, 0x2e, 0x0a]
}

/// First line of a new window.
pub fn welcome() -> (res: [u8; 21])
    ensures
        res@ == t_welcome(),
{
    let res: [u8; 21] = [0x57, 0x65, 0x6c, 0x63, 0x6f, 0x6d, 0x65, 0x20, 0x74, 0x6f, 0x20, 0x66, 0x65, 0x72, 0x72, 0x69, 0x73, 0x4f, 0x53, 0x2e, 0x0a];
    assert(res@ =~= t_welcome());
    res
}

/// Second line of a new window.
pub open spec fn t_type_help() -> Seq<u8> {
    seq![0x54u8, 0x79, 0x70, 0x65, 0x20, 0x72, 0x2e, 0x68, 0x65, 0x6c, 0x70, 0x20, 0x66, 0x6f, 0x72, 0x20, 0x63, 0x6f, 0x6d, 0x6d, 0x61, 0x6e, 0x64, 0x73, 0x2e, 0x0a]
}

/// Second line of a new window.
pub fn type_help() -> (res: [u8; 26])
    ensures
        res@ == t_type_help(),
{
    let res: [u8; 26] = [0x54, 0x79, 0x70, 0x65, 0x20, 0x72, 0x2e, 0x68, 0x65, 0x6c, 0x70, 0x20, 0x66, 0x6f, 0x72, 0x20, 0x63, 0x6f, 0x6d, 0x6d, 0x61, 0x6e, 0x64, 0x73, 0x2e, 0x0a];
    assert(res@ =~= t_type_help());
    res
}

/// `r.new` with every window open.
pub open spec fn t_max_windows() -> Seq<u8> {
    seq![0x4du8, 0x61, 0x78, 0x20, 0x77, 0x69, 0x6e, 0x64, 0x6f, 0x77, 0x73, 0x20, 0x72, 0x65, 0x61, 0x63, 0x68, 0x65, 0x64, 0x2e, 0x0a]
}

/// `r.new` with every window open.
pub fn max_windows() -> (res: [u8; 21])
    ensures
        res@ == t_max_windows(),
{
    let res: [u8; 21] = [0x4d, 0x61, 0x78, 0x20, 0x77, 0x69, 0x6e, 0x64, 0x6f, 0x77, 0x73, 0x20, 0x72, 0x65, 0x61, 0x63, 0x68, 0x65, 0x64, 0x2e, 0x0a];
    assert(res@ =~= t_max_windows());
    res
}

/// The prompt.
pub open spec fn t_prompt() -> Seq<u8> {
    seq![0xeeu8, 0x20]
}

/// The prompt.
pub fn prompt() -> (res: [u8; 2])
    ensures
        res@ == t_prompt(),
{
    let res: [u8; 2] = [0xee, 0x20];
    assert(res@ =~= t_prompt());
    res
}

/// The title of Ferris Dungeon.
pub open spec fn t_dungeon_title() -> Seq<u8> {
    seq![0x46u8, 0x45, 0x52, 0x52, 0x49, 0x53, 0x20, 0x44, 0x55, 0x4e, 0x47, 0x45, 0x4f, 0x4e]
}

/// The title of Ferris Dungeon.
pub fn dungeon_title() -> (res: [u8; 14])
    ensures
        res@ == t_dungeon_title(),
{
    let res: [u8; 14] = [0x46, 0x45, 0x52, 0x52, 0x49, 0x53, 0x20, 0x44, 0x55, 0x4e, 0x47, 0x45, 0x4f, 0x4e];
    assert(res@ =~= t_dungeon_title());
    res
}

/// Ferris's top row.
pub open spec fn t_crab_top() -> Seq<u8> {
    seq![0x28u8, 0x6f, 0x5f, 0x6f, 0x29]
}

/// Ferris's top row.
pub fn crab_top() -> (res: [u8; 5])
    ensures
        res@ == t_crab_top(),
{
    let res: [u8; 5] = [0x28, 0x6f, 0x5f, 0x6f, 0x29];
    assert(res@ =~= t_crab_top());
    res
}

/// Ferris's bottom row.
pub open spec fn t_crab_bottom() -> Seq<u8> {
    seq![0x2fu8, 0x3e, 0x2d, 0x3c, 0x5c]
}

/// Ferris's bottom row.
pub fn crab_bottom() -> (res: [u8; 5])
    ensures
        res@ == t_crab_bottom(),
{
    let res: [u8; 5] = [0x2f, 0x3e, 0x2d, 0x3c, 0x5c];
    assert(res@ =~= t_crab_bottom());
    res
}

/// Ferris's top row when it attacks.
pub open spec fn t_hurt_top() -> Seq<u8> {
    seq![0x28u8, 0x3e, 0x5f, 0x3c, 0x29]
}

/// Ferris's top row when it attacks.
pub fn hurt_top() -> (res: [u8; 5])
    ensures
        res@ == t_hurt_top(),
{
    let res: [u8; 5] = [0x28, 0x3e, 0x5f, 0x3c, 0x29];
    assert(res@ =~= t_hurt_top());
    res
}

/// Ferris's bottom row when it attacks.
pub open spec fn t_hurt_bottom() -> Seq<u8> {
    seq![0x5cu8, 0x3e, 0x2d, 0x3c, 0x2f]
}

/// Ferris's bottom row when it attacks.
pub fn hurt_bottom() -> (res: [u8; 5])
    ensures
        res@ == t_hurt_bottom(),
{
    let res: [u8; 5] = [0x5c, 0x3e, 0x2d, 0x3c, 0x2f];
    assert(res@ =~= t_hurt_bottom());
    res
}

/// How to start Ferris Dungeon.
pub open spec fn t_delve() -> Seq<u8> {
    seq![0x50u8, 0x72, 0x65, 0x73, 0x73, 0x20, 0x5b, 0x45, 0x4e, 0x54, 0x45, 0x52, 0x5d, 0x20, 0x74, 0x6f, 0x20, 0x64, 0x65, 0x6c, 0x76, 0x65]
}

/// How to start Ferris Dungeon.
pub fn delve() -> (res: [u8; 22])
    ensures
        res@ == t_delve(),
{
    let res: [u8; 22] = [0x50, 0x72, 0x65, 0x73, 0x73, 0x20, 0x5b, 0x45, 0x4e, 0x54, 0x45, 0x52, 0x5d, 0x20, 0x74, 0x6f, 0x20, 0x64, 0x65, 0x6c, 0x76, 0x65];
    assert(res@ =~= t_delve());
    res
}

/// How to leave Ferris Dungeon.
pub open spec fn t_flee() -> Seq<u8> {
    seq![0x50u8, 0x72, 0x65, 0x73, 0x73, 0x20, 0x5b, 0x45, 0x53, 0x43, 0x5d, 0x20, 0x74, 0x6f, 0x20, 0x66, 0x6c, 0x65, 0x65]
}

/// How to leave Ferris Dungeon.
pub fn flee() -> (res: [u8; 19])
    ensures
        res@ == t_flee(),
{
    let res: [u8; 19] = [0x50, 0x72, 0x65, 0x73, 0x73, 0x20, 0x5b, 0x45, 0x53, 0x43, 0x5d, 0x20, 0x74, 0x6f, 0x20, 0x66, 0x6c, 0x65, 0x65];
    assert(res@ =~= t_flee());
    res
}

/// The health label.
pub open spec fn t_hp_label() -> Seq<u8> {
    seq![0x48u8, 0x50, 0x3a]
}

/// The health label.
pub fn hp_label() -> (res: [u8; 3])
    ensures
        res@ == t_hp_label(),
{
    let res: [u8; 3] = [0x48, 0x50, 0x3a];
    assert(res@ =~= t_hp_label());
    res
}

/// The floor label.
pub open spec fn t_floor_label() -> Seq<u8> {
    seq![0x46u8, 0x4c, 0x52, 0x3a]
}

/// The floor label.
pub fn floor_label() -> (res: [u8; 4])
    ensures
        res@ == t_floor_label(),
{
    let res: [u8; 4] = [0x46, 0x4c, 0x52, 0x3a];
    assert(res@ =~= t_floor_label());
    res
}

/// The end of a game of Ferris Dungeon.
pub open spec fn t_died() -> Seq<u8> {
    seq![0x20u8, 0x5b, 0x59, 0x4f, 0x55, 0x20, 0x44, 0x49, 0x45, 0x44, 0x20, 0x2d, 0x20, 0x45, 0x53, 0x43, 0x5d]
}

/// The end of a game of Ferris Dungeon.
pub fn died() -> (res: [u8; 17])
    ensures
        res@ == t_died(),
{
    let res: [u8; 17] = [0x20, 0x5b, 0x59, 0x4f, 0x55, 0x20, 0x44, 0x49, 0x45, 0x44, 0x20, 0x2d, 0x20, 0x45, 0x53, 0x43, 0x5d];
    assert(res@ =~= t_died());
    res
}

/// The top of the Claw editor.
pub open spec fn t_claw_header() -> Seq<u8> {
    seq![0x43u8, 0x4c, 0x41, 0x57, 0x20, 0x45, 0x44, 0x49, 0x54, 0x4f, 0x52, 0x20, 0x7c, 0x20, 0x5b, 0x46, 0x31, 0x30, 0x5d, 0x53, 0x61, 0x76, 0x65, 0x20, 0x5b, 0x45, 0x53, 0x43, 0x5d, 0x51, 0x75, 0x69, 0x74, 0x0a, 0x0a]
}

/// The top of the Claw editor.
pub fn claw_header() -> (res: [u8; 35])
    ensures
        res@ == t_claw_header(),
{
    let res: [u8; 35] = [0x43, 0x4c, 0x41, 0x57, 0x20, 0x45, 0x44, 0x49, 0x54, 0x4f, 0x52, 0x20, 0x7c, 0x20, 0x5b, 0x46, 0x31, 0x30, 0x5d, 0x53, 0x61, 0x76, 0x65, 0x20, 0x5b, 0x45, 0x53, 0x43, 0x5d, 0x51, 0x75, 0x69, 0x74, 0x0a, 0x0a];
    assert(res@ =~= t_claw_header());
    res
}

/// The file name prompt of the editors.
pub open spec fn t_save_as() -> Seq<u8> {
    seq![0x0au8, 0x53, 0x61, 0x76, 0x65, 0x20, 0x61, 0x73, 0x3a, 0x20]
}

/// The file name prompt of the editors.
pub fn save_as() -> (res: [u8; 10])
    ensures
        res@ == t_save_as(),
{
    let res: [u8; 10] = [0x0a, 0x53, 0x61, 0x76, 0x65, 0x20, 0x61, 0x73, 0x3a, 0x20];
    assert(res@ =~= t_save_as());
    res
}

/// Confirmation of a save.
pub open spec fn t_saved() -> Seq<u8> {
    seq![0x0au8, 0x53, 0x61, 0x76, 0x65, 0x64, 0x21]
}

/// Confirmation of a save.
pub fn saved() -> (res: [u8; 7])
    ensures
        res@ == t_saved(),
{
    let res: [u8; 7] = [0x0a, 0x53, 0x61, 0x76, 0x65, 0x64, 0x21];
    assert(res@ =~= t_saved());
    res
}

/// The extension of Claw text files.
pub open spec fn t_claw_ext() -> Seq<u8> {
    seq![0x2eu8, 0x63, 0x6c, 0x61, 0x77]
}

/// The extension of Claw text files.
pub fn claw_ext() -> (res: [u8; 5])
    ensures
        res@ == t_claw_ext(),
{
    let res: [u8; 5] = [0x2e, 0x63, 0x6c, 0x61, 0x77];
    assert(res@ =~= t_claw_ext());
    res
}

/// The extension of FerrisScript files.
pub open spec fn t_ferris_ext() -> Seq<u8> {
    seq![0x2eu8, 0x66, 0x65, 0x72, 0x72, 0x69, 0x73]
}

/// The extension of FerrisScript files.
pub fn ferris_ext() -> (res: [u8; 7])
    ensures
        res@ == t_ferris_ext(),
{
    let res: [u8; 7] = [0x2e, 0x66, 0x65, 0x72, 0x72, 0x69, 0x73];
    assert(res@ =~= t_ferris_ext());
    res
}

/// The extension of Chest songs.
pub open spec fn t_chest_ext() -> Seq<u8> {
    seq![0x2eu8, 0x63, 0x68, 0x65, 0x73, 0x74]
}

/// The extension of Chest songs.
pub fn chest_ext() -> (res: [u8; 6])
    ensures
        res@ == t_chest_ext(),
{
    let res: [u8; 6] = [0x2e, 0x63, 0x68, 0x65, 0x73, 0x74];
    assert(res@ =~= t_chest_ext());
    res
}

/// The top of the FerrisScript editor.
pub open spec fn t_ide_header() -> Seq<u8> {
    seq![0x54u8, 0x41, 0x42, 0x53, 0x3a, 0x20, 0x5b, 0x46, 0x31, 0x2d, 0x46, 0x33, 0x5d, 0x20, 0x7c, 0x20, 0x5b, 0x46, 0x31, 0x30, 0x5d, 0x53, 0x61, 0x76, 0x65, 0x20, 0x5b, 0x46, 0x35, 0x5d, 0x52, 0x75, 0x6e, 0x20, 0x5b, 0x45, 0x53, 0x43, 0x5d, 0x51, 0x75, 0x69, 0x74, 0x0a]
}

/// The top of the FerrisScript editor.
pub fn ide_header() -> (res: [u8; 44])
    ensures
        res@ == t_ide_header(),
{
    let res: [u8; 44] = [0x54, 0x41, 0x42, 0x53, 0x3a, 0x20, 0x5b, 0x46, 0x31, 0x2d, 0x46, 0x33, 0x5d, 0x20, 0x7c, 0x20, 0x5b, 0x46, 0x31, 0x30, 0x5d, 0x53, 0x61, 0x76, 0x65, 0x20, 0x5b, 0x46, 0x35, 0x5d, 0x52, 0x75, 0x6e, 0x20, 0x5b, 0x45, 0x53, 0x43, 0x5d, 0x51, 0x75, 0x69, 0x74, 0x0a];
    assert(res@ =~= t_ide_header());
    res
}

/// A tab label, before its number.
pub open spec fn t_tab_label() -> Seq<u8> {
    seq![0x20u8, 0x54, 0x61, 0x62]
}

/// A tab label, before its number.
pub fn tab_label() -> (res: [u8; 4])
    ensures
        res@ == t_tab_label(),
{
    let res: [u8; 4] = [0x20, 0x54, 0x61, 0x62];
    assert(res@ =~= t_tab_label());
    res
}

/// Two line breaks.
pub open spec fn t_two_lines() -> Seq<u8> {
    seq![0x0au8, 0x0a]
}

/// Two line breaks.
pub fn two_lines() -> (res: [u8; 2])
    ensures
        res@ == t_two_lines(),
{
    let res: [u8; 2] = [0x0a, 0x0a];
    assert(res@ =~= t_two_lines());
    res
}

/// The end of a script run from the editor.
pub open spec fn t_done_text() -> Seq<u8> {
    seq![0x0au8, 0x5b, 0x44, 0x6f, 0x6e, 0x65, 0x5d]
}

/// The end of a script run from the editor.
pub fn done_text() -> (res: [u8; 7])
    ensures
        res@ == t_done_text(),
{
    let res: [u8; 7] = [0x0a, 0x5b, 0x44, 0x6f, 0x6e, 0x65, 0x5d];
    assert(res@ =~= t_done_text());
    res
}

/// The title of Chest's save prompt.
pub open spec fn t_save_song() -> Seq<u8> {
    seq![0x53u8, 0x41, 0x56, 0x45, 0x20, 0x53, 0x4f, 0x4e, 0x47, 0x0a]
}

/// The title of Chest's save prompt.
pub fn save_song() -> (res: [u8; 10])
    ensures
        res@ == t_save_song(),
{
    let res: [u8; 10] = [0x53, 0x41, 0x56, 0x45, 0x20, 0x53, 0x4f, 0x4e, 0x47, 0x0a];
    assert(res@ =~= t_save_song());
    res
}

/// Chest's file name prompt.
pub open spec fn t_enter_name() -> Seq<u8> {
    seq![0x45u8, 0x6e, 0x74, 0x65, 0x72, 0x20, 0x46, 0x69, 0x6c, 0x65, 0x20, 0x4e, 0x61, 0x6d, 0x65, 0x3a, 0x20]
}

/// Chest's file name prompt.
pub fn enter_name() -> (res: [u8; 17])
    ensures
        res@ == t_enter_name(),
{
    let res: [u8; 17] = [0x45, 0x6e, 0x74, 0x65, 0x72, 0x20, 0x46, 0x69, 0x6c, 0x65, 0x20, 0x4e, 0x61, 0x6d, 0x65, 0x3a, 0x20];
    assert(res@ =~= t_enter_name());
    res
}

/// The end of Chest's save prompt.
pub open spec fn t_chest_confirm() -> Seq<u8> {
    seq![0x2eu8, 0x63, 0x68, 0x65, 0x73, 0x74, 0x0a, 0x0a, 0x5b, 0x45, 0x4e, 0x54, 0x45, 0x52, 0x5d, 0x20, 0x43, 0x6f, 0x6e, 0x66, 0x69, 0x72, 0x6d, 0x20, 0x20, 0x5b, 0x45, 0x53, 0x43, 0x5d, 0x20, 0x43, 0x61, 0x6e, 0x63, 0x65, 0x6c]
}

/// The end of Chest's save prompt.
pub fn chest_confirm() -> (res: [u8; 37])
    ensures
        res@ == t_chest_confirm(),
{
    let res: [u8; 37] = [0x2e, 0x63, 0x68, 0x65, 0x73, 0x74, 0x0a, 0x0a, 0x5b, 0x45, 0x4e, 0x54, 0x45, 0x52, 0x5d, 0x20, 0x43, 0x6f, 0x6e, 0x66, 0x69, 0x72, 0x6d, 0x20, 0x20, 0x5b, 0x45, 0x53, 0x43, 0x5d, 0x20, 0x43, 0x61, 0x6e, 0x63, 0x65, 0x6c];
    assert(res@ =~= t_chest_confirm());
    res
}

/// The title of Chest.
pub open spec fn t_chest_title() -> Seq<u8> {
    seq![0x43u8, 0x48, 0x45, 0x53, 0x54, 0x0a]
}

/// The title of Chest.
pub fn chest_title() -> (res: [u8; 6])
    ensures
        res@ == t_chest_title(),
{
    let res: [u8; 6] = [0x43, 0x48, 0x45, 0x53, 0x54, 0x0a];
    assert(res@ =~= t_chest_title());
    res
}

/// The key help below Chest's grid.
pub open spec fn t_chest_help() -> Seq<u8> {
    seq![0x0au8, 0x0a, 0x0a, 0x0a, 0x0a, 0x0a, 0x0a, 0x0a, 0x0a, 0x5b, 0x50, 0x5d, 0x20, 0x50, 0x6c, 0x61, 0x79, 0x20, 0x20, 0x5b, 0x53, 0x5d, 0x20, 0x53, 0x61, 0x76, 0x65, 0x20, 0x20, 0x5b, 0x45, 0x53, 0x43, 0x5d, 0x20, 0x45, 0x78, 0x69, 0x74]
}

/// The key help below Chest's grid.
pub fn chest_help() -> (res: [u8; 39])
    ensures
        res@ == t_chest_help(),
{
    let res: [u8; 39] = [0x0a, 0x0a, 0x0a, 0x0a, 0x0a, 0x0a, 0x0a, 0x0a, 0x0a, 0x5b, 0x50, 0x5d, 0x20, 0x50, 0x6c, 0x61, 0x79, 0x20, 0x20, 0x5b, 0x53, 0x5d, 0x20, 0x53, 0x61, 0x76, 0x65, 0x20, 0x20, 0x5b, 0x45, 0x53, 0x43, 0x5d, 0x20, 0x45, 0x78, 0x69, 0x74];
    assert(res@ =~= t_chest_help());
    res
}

/// The bytes that Chest's name prompt types for the scancodes from 0x10 on; `?` types nothing.
pub open spec fn t_name_keys() -> Seq<u8> {
    seq![0x3fu8, 0x3f, 0x71, 0x77, 0x65, 0x72, 0x74, 0x79, 0x75, 0x69, 0x6f, 0x70, 0x5b, 0x5d, 0x3f, 0x3f, 0x61, 0x73, 0x64, 0x66, 0x67, 0x68, 0x6a, 0x6b, 0x6c, 0x3b, 0x27, 0x27, 0x3f, 0x7a, 0x78, 0x63, 0x76, 0x62, 0x6e, 0x6d, 0x2c, 0x2e, 0x2f]
}

/// The bytes that Chest's name prompt types for the scancodes from 0x10 on; `?` types nothing.
pub fn name_keys() -> (res: [u8; 39])
    ensures
        res@ == t_name_keys(),
{
    let res: [u8; 39] = [0x3f, 0x3f, 0x71, 0x77, 0x65, 0x72, 0x74, 0x79, 0x75, 0x69, 0x6f, 0x70, 0x5b, 0x5d, 0x3f, 0x3f, 0x61, 0x73, 0x64, 0x66, 0x67, 0x68, 0x6a, 0x6b, 0x6c, 0x3b, 0x27, 0x27, 0x3f, 0x7a, 0x78, 0x63, 0x76, 0x62, 0x6e, 0x6d, 0x2c, 0x2e, 0x2f];
    assert(res@ =~= t_name_keys());
    res
}

/// The top of the Carapace explorer.
pub open spec fn t_carapace_header() -> Seq<u8> {
    seq![0x43u8, 0x41, 0x52, 0x41, 0x50, 0x41, 0x43, 0x45, 0x3a, 0x20, 0x5b, 0x4d, 0x5d, 0x20, 0x46, 0x6f, 0x6c, 0x64, 0x65, 0x72, 0x20, 0x5b, 0x45, 0x6e, 0x74, 0x65, 0x72, 0x5d, 0x20, 0x52, 0x75, 0x6e, 0x0a]
}

/// The top of the Carapace explorer.
pub fn carapace_header() -> (res: [u8; 33])
    ensures
        res@ == t_carapace_header(),
{
    let res: [u8; 33] = [0x43, 0x41, 0x52, 0x41, 0x50, 0x41, 0x43, 0x45, 0x3a, 0x20, 0x5b, 0x4d, 0x5d, 0x20, 0x46, 0x6f, 0x6c, 0x64, 0x65, 0x72, 0x20, 0x5b, 0x45, 0x6e, 0x74, 0x65, 0x72, 0x5d, 0x20, 0x52, 0x75, 0x6e, 0x0a];
    assert(res@ =~= t_carapace_header());
    res
}

/// The start of a listed file's folder.
pub open spec fn t_fld_open() -> Seq<u8> {
    seq![0x20u8, 0x5b, 0x46, 0x6c, 0x64, 0x3a]
}

/// The start of a listed file's folder.
pub fn fld_open() -> (res: [u8; 6])
    ensures
        res@ == t_fld_open(),
{
    let res: [u8; 6] = [0x20, 0x5b, 0x46, 0x6c, 0x64, 0x3a];
    assert(res@ =~= t_fld_open());
    res
}

/// The end of a listed file's folder.
pub open spec fn t_fld_close() -> Seq<u8> {
    seq![0x5du8, 0x20]
}

/// The end of a listed file's folder.
pub fn fld_close() -> (res: [u8; 2])
    ensures
        res@ == t_fld_close(),
{
    let res: [u8; 2] = [0x5d, 0x20];
    assert(res@ =~= t_fld_close());
    res
}

/// A line break.
pub open spec fn t_newline() -> Seq<u8> {
    seq![0x0au8]
}

/// A line break.
pub fn newline() -> (res: [u8; 1])
    ensures
        res@ == t_newline(),
{
    let res: [u8; 1] = [0x0a];
    assert(res@ =~= t_newline());
    res
}

/// The listing of an empty file system.
pub open spec fn t_no_files() -> Seq<u8> {
    seq![0x20u8, 0x28, 0x4e, 0x6f, 0x20, 0x66, 0x69, 0x6c, 0x65, 0x73, 0x29, 0x0a]
}

/// The listing of an empty file system.
pub fn no_files() -> (res: [u8; 12])
    ensures
        res@ == t_no_files(),
{
    let res: [u8; 12] = [0x20, 0x28, 0x4e, 0x6f, 0x20, 0x66, 0x69, 0x6c, 0x65, 0x73, 0x29, 0x0a];
    assert(res@ =~= t_no_files());
    res
}

/// The top of a viewed text file.
pub open spec fn t_viewing() -> Seq<u8> {
    seq![0x56u8, 0x69, 0x65, 0x77, 0x69, 0x6e, 0x67, 0x20, 0x54, 0x65, 0x78, 0x74, 0x20, 0x46, 0x69, 0x6c, 0x65, 0x0a, 0x0a]
}

/// The top of a viewed text file.
pub fn viewing() -> (res: [u8; 19])
    ensures
        res@ == t_viewing(),
{
    let res: [u8; 19] = [0x56, 0x69, 0x65, 0x77, 0x69, 0x6e, 0x67, 0x20, 0x54, 0x65, 0x78, 0x74, 0x20, 0x46, 0x69, 0x6c, 0x65, 0x0a, 0x0a];
    assert(res@ =~= t_viewing());
    res
}

/// The end of a viewed or run file.
pub open spec fn t_press_esc() -> Seq<u8> {
    seq![0x0au8, 0x0a, 0x5b, 0x50, 0x72, 0x65, 0x73, 0x73, 0x20, 0x45, 0x53, 0x43, 0x20, 0x74, 0x6f, 0x20, 0x72, 0x65, 0x74, 0x75, 0x72, 0x6e, 0x5d]
}

/// The end of a viewed or run file.
pub fn press_esc() -> (res: [u8; 23])
    ensures
        res@ == t_press_esc(),
{
    let res: [u8; 23] = [0x0a, 0x0a, 0x5b, 0x50, 0x72, 0x65, 0x73, 0x73, 0x20, 0x45, 0x53, 0x43, 0x20, 0x74, 0x6f, 0x20, 0x72, 0x65, 0x74, 0x75, 0x72, 0x6e, 0x5d];
    assert(res@ =~= t_press_esc());
    res
}

/// Row 1 of the boot logo.
pub open spec fn t_logo_0() -> Seq<u8> {
    seq![0x20u8, 0x20, 0x20, 0x20, 0x20, 0x20, 0x20, 0x20, 0x5f, 0x7e, 0x5e, 0x7e, 0x5e, 0x7e, 0x5f, 0x20, 0x20, 0x20, 0x20, 0x20, 0x20, 0x20, 0x20, 0x20]
}

/// Row 1 of the boot logo.
pub fn logo_0() -> (res: [u8; 24])
    ensures
        res@ == t_logo_0(),
{
    let res: [u8; 24] = [0x20, 0x20, 0x20, 0x20, 0x20, 0x20, 0x20, 0x20, 0x5f, 0x7e, 0x5e, 0x7e, 0x5e, 0x7e, 0x5f, 0x20, 0x20, 0x20, 0x20, 0x20, 0x20, 0x20, 0x20, 0x20];
    assert(res@ =~= t_logo_0());
    res
}

/// Row 2 of the boot logo.
pub open spec fn t_logo_1() -> Seq<u8> {
    seq![0x20u8, 0x20, 0x20, 0x20, 0x5c, 0x29, 0x20, 0x2f, 0x20, 0x20, 0x6f, 0x20, 0x6f, 0x20, 0x20, 0x5c, 0x20, 0x28, 0x2f, 0x20, 0x20, 0x20, 0x20, 0x20]
}

/// Row 2 of the boot logo.
pub fn logo_1() -> (res: [u8; 24])
    ensures
        res@ == t_logo_1(),
{
    let res: [u8; 24] = [0x20, 0x20, 0x20, 0x20, 0x5c, 0x29, 0x20, 0x2f, 0x20, 0x20, 0x6f, 0x20, 0x6f, 0x20, 0x20, 0x5c, 0x20, 0x28, 0x2f, 0x20, 0x20, 0x20, 0x20, 0x20];
    assert(res@ =~= t_logo_1());
    res
}

/// Row 3 of the boot logo.
pub open spec fn t_logo_2() -> Seq<u8> {
    seq![0x20u8, 0x20, 0x20, 0x20, 0x20, 0x20, 0x27, 0x5f, 0x20, 0x20, 0x20, 0x2d, 0x20, 0x20, 0x20, 0x5f, 0x27, 0x20, 0x20, 0x20, 0x20, 0x20, 0x20, 0x20]
}

/// Row 3 of the boot logo.
pub fn logo_2() -> (res: [u8; 24])
    ensures
        res@ == t_logo_2(),
{
    let res: [u8; 24] = [0x20, 0x20, 0x20, 0x20, 0x20, 0x20, 0x27, 0x5f, 0x20, 0x20, 0x20, 0x2d, 0x20, 0x20, 0x20, 0x5f, 0x27, 0x20, 0x20, 0x20, 0x20, 0x20, 0x20, 0x20];
    assert(res@ =~= t_logo_2());
    res
}

/// Row 4 of the boot logo.
pub open spec fn t_logo_3() -> Seq<u8> {
    seq![0x20u8, 0x20, 0x20, 0x20, 0x20, 0x20, 0x2f, 0x20, 0x27, 0x2d, 0x2d, 0x2d, 0x2d, 0x2d, 0x27, 0x20, 0x5c, 0x20, 0x20, 0x20, 0x20, 0x20, 0x20, 0x20]
}

/// Row 4 of the boot logo.
pub fn logo_3() -> (res: [u8; 24])
    ensures
        res@ == t_logo_3(),
{
    let res: [u8; 24] = [0x20, 0x20, 0x20, 0x20, 0x20, 0x20, 0x2f, 0x20, 0x27, 0x2d, 0x2d, 0x2d, 0x2d, 0x2d, 0x27, 0x20, 0x5c, 0x20, 0x20, 0x20, 0x20, 0x20, 0x20, 0x20];
    assert(res@ =~= t_logo_3());
    res
}

/// Row 5 of the boot logo.
pub open spec fn t_logo_4() -> Seq<u8> {
    seq![0x20u8, 0x20, 0x20, 0x20, 0x20, 0x20, 0x20, 0x20, 0x20, 0x20, 0x20, 0x20, 0x20, 0x20, 0x20, 0x20, 0x20, 0x20, 0x20, 0x20, 0x20, 0x20, 0x20, 0x20]
}

/// Row 5 of the boot logo.
pub fn logo_4() -> (res: [u8; 24])
    ensures
        res@ == t_logo_4(),
{
    let res: [u8; 24] = [0x20, 0x20, 0x20, 0x20, 0x20, 0x20, 0x20, 0x20, 0x20, 0x20, 0x20, 0x20, 0x20, 0x20, 0x20, 0x20, 0x20, 0x20, 0x20, 0x20, 0x20, 0x20, 0x20, 0x20];
    assert(res@ =~= t_logo_4());
    res
}

/// Row 6 of the boot logo.
pub open spec fn t_logo_5() -> Seq<u8> {
    seq![0x20u8, 0x20, 0x20, 0x20, 0x20, 0x46, 0x20, 0x45, 0x20, 0x52, 0x20, 0x52, 0x20, 0x49, 0x20, 0x53, 0x20, 0x20, 0x20, 0x20, 0x20, 0x20]
}

/// Row 6 of the boot logo.
pub fn logo_5() -> (res: [u8; 22])
    ensures
        res@ == t_logo_5(),
{
    let res: [u8; 22] = [0x20, 0x20, 0x20, 0x20, 0x20, 0x46, 0x20, 0x45, 0x20, 0x52, 0x20, 0x52, 0x20, 0x49, 0x20, 0x53, 0x20, 0x20, 0x20, 0x20, 0x20, 0x20];
    assert(res@ =~= t_logo_5());
    res
}

/// Row 7 of the boot logo.
pub open spec fn t_logo_6() -> Seq<u8> {
    seq![0x20u8, 0x20, 0x20, 0x20, 0x20, 0x20, 0x20, 0x20, 0x20, 0x4f, 0x20, 0x53, 0x20, 0x20, 0x20, 0x20, 0x20, 0x20, 0x20, 0x20, 0x20, 0x20]
}

/// Row 7 of the boot logo.
pub fn logo_6() -> (res: [u8; 22])
    ensures
        res@ == t_logo_6(),
{
    let res: [u8; 22] = [0x20, 0x20, 0x20, 0x20, 0x20, 0x20, 0x20, 0x20, 0x20, 0x4f, 0x20, 0x53, 0x20, 0x20, 0x20, 0x20, 0x20, 0x20, 0x20, 0x20, 0x20, 0x20];
    assert(res@ =~= t_logo_6());
    res
}

} // verus!
