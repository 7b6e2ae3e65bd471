use vstd::prelude::*;

use crate::apps::audio_midi::{AudioApp, AudioAppView, AudioProvider};
use crate::audio::interface::{
    same_device, same_selection, selected_channels, AudioBuffer, AudioChannelSelection, AudioDevice, AudioInterface,
};
use crate::error::AudError;
use crate::lua::engine::HostEvent;

verus! {

/// Keeps an audio source connected to the device and channels selected,
/// and gathers the audio that it provides.
pub struct AudioProviderController<P: AudioProvider> {
    app: AudioApp<P>,
}

impl<P: AudioProvider> AudioProviderController<P> {
    /// What the controller holds: the audio gathered and the device and
    /// channels selected.
    pub closed spec fn view(&self) -> AudioAppView {
        self.app.view()
    }

    /// A controller of `receiver`, with nothing selected and no audio.
    pub fn new(receiver: P) -> (r: Self)
        ensures
            r.view().buffer.data@ == Seq::<u32>::empty(),
            r.view().buffer.num_channels == 0,
            r.view().selected_device is None,
            r.view().selected_channels is None,
    {
        AudioProviderController { app: AudioApp::new(receiver) }
    }

    /// The audio source.
    pub closed spec fn provider(&self) -> P {
        self.app.provider()
    }

    /// The devices of the audio source.
    pub fn devices(&self) -> (r: &[AudioDevice])
        ensures
            r@ == self.provider().audio_devices()@,
    {
        self.app.devices()
    }

    /// The audio gathered so far.
    pub fn buffer(&self) -> (r: &AudioBuffer)
        ensures
            *r == self.view().buffer,
    {
        self.app.buffer()
    }

    /// The device selected, if any.
    pub fn selected_device(&self) -> (r: Option<&AudioDevice>)
        ensures
            r matches Some(d) ==> self.view().selected_device == Some(*d),
            r is None <==> self.view().selected_device is None,
    {
        self.app.selected_device()
    }

    /// The channels selected, if any.
    pub fn selected_channels(&self) -> (r: Option<&AudioChannelSelection>)
        ensures
            r matches Some(c) ==> self.view().selected_channels == Some(*c),
            r is None <==> self.view().selected_channels is None,
    {
        self.app.selected_channels()
    }

    /// Lets the source process its events and adds the audio it holds to
    /// the buffer (see `AudioApp::fetch_buffer`).
    pub fn update(&mut self) -> (r: Result<(), AudError>)
        ensures
            final(self).view().selected_device == old(self).view().selected_device,
            final(self).view().selected_channels == old(self).view().selected_channels,
            r is Err ==> final(self).view().buffer == old(self).view().buffer,
    {
        self.app.fetch_buffer()
    }

    /// Connects the selected device to `channel_selection`, clearing the
    /// audio gathered, and returns the event that tells the script which
    /// device it is connected to. Fails when no device is selected, or when
    /// the source fails to connect.
    pub fn update_channel_selection(&mut self, channel_selection: AudioChannelSelection) -> (r: Result<
        HostEvent,
        AudError,
    >)
        ensures
            old(self).view().selected_device is None ==> (r matches Err(e) && e.message@ == "No audio device selected"@
                && final(self).view() == old(self).view() && final(self).provider() == old(self).provider()),
            final(self).view().selected_device == old(self).view().selected_device,
            old(self).view().selected_device is Some ==> final(self).view().buffer.data@ == Seq::<u32>::empty(),
            r is Ok ==> final(self).view().selected_channels == Some(channel_selection),
            r is Err ==> final(self).view().selected_channels == old(self).view().selected_channels,
            r matches Ok(HostEvent::Connect(name)) ==> (old(self).view().selected_device matches Some(d)
                && name@ == d.name@),
            r is Ok ==> r matches Ok(HostEvent::Connect(_)),
            old(self).view().selected_device matches Some(d) ==> (final(self).provider().requested_connection() matches Some(
                (device, channels),
            ) && same_device(device, d) && same_selection(channels, channel_selection)),
    {
        self.app.update_channel_selection(channel_selection)?;
        match self.app.selected_device() {
            Some(device) => Ok(HostEvent::Connect(device.name.clone())),
            None => Err(AudError::new("No audio device selected")),
        }
    }

    /// Selects `audio_device` and connects it to `channel_selection` (see
    /// `update_channel_selection`); the buffer takes the number of channels
    /// selected.
    pub fn connect_to_input(&mut self, audio_device: &AudioDevice, channel_selection: AudioChannelSelection) -> (r:
        Result<HostEvent, AudError>)
        ensures
            final(self).view().selected_device matches Some(d) && same_device(d, *audio_device),
            final(self).view().buffer.num_channels == selected_channels(channel_selection).len() as u32,
            final(self).view().buffer.data@ == Seq::<u32>::empty(),
            r is Ok ==> final(self).view().selected_channels == Some(channel_selection),
            r is Err ==> final(self).view().selected_channels == old(self).view().selected_channels,
            r is Ok ==> (r matches Ok(HostEvent::Connect(name)) && name@ == audio_device.name@),
            final(self).provider().requested_connection() matches Some((device, channels)) && same_device(
                device,
                *audio_device,
            ) && same_selection(channels, channel_selection),
    {
        self.app.connect_to_input(audio_device, channel_selection)?;
        match self.app.selected_device() {
            Some(device) => Ok(HostEvent::Connect(device.name.clone())),
            None => Err(AudError::new("No audio device selected")),
        }
    }

    /// Connects again to the device and channels selected, when both are;
    /// otherwise nothing happens.
    pub fn reconnect(&mut self) -> (r: Result<Option<HostEvent>, AudError>)
        ensures
            !(old(self).view().selected_device is Some && old(self).view().selected_channels is Some) ==> (r matches Ok(
                None,
            ) && final(self).view() == old(self).view() && final(self).provider() == old(self).provider()),
            old(self).view().selected_channels is Some ==> (old(self).view().selected_device matches Some(d) ==> {
                &&& final(self).view().selected_device matches Some(e) && same_device(e, d)
                &&& final(self).view().buffer.data@ == Seq::<u32>::empty()
                &&& r is Ok ==> (r matches Ok(Some(HostEvent::Connect(name))) && name@ == d.name@)
                &&& final(self).view().selected_channels matches Some(c) && same_selection(
                    c,
                    old(self).view().selected_channels->0,
                )
                &&& final(self).provider().requested_connection() matches Some((device, channels))
                    && same_device(device, d) && same_selection(channels, old(self).view().selected_channels->0)
            }),
    {
        let device = match self.app.selected_device() {
            Some(d) => d.duplicate(),
            None => return Ok(None),
        };
        let channels = match self.app.selected_channels() {
            Some(c) => c.duplicate(),
            None => return Ok(None),
        };
        let event = self.connect_to_input(&device, channels)?;
        Ok(Some(event))
    }
}

} // verus!
